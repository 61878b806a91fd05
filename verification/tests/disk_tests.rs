use stream_recorder::config::{Config, StreamConfig};
use stream_recorder::recorder::UtcTime;
use stream_recorder::storage::{
    cleanup_candidate, estimated_total_space, is_segment_path, oldest_first, storage_from, CleanupCandidate, CleanupPlan,
    DirEntryFacts, DiskManager, StorageInfo,
};

#[test]
fn test_storage_info_clone() {
    let info = StorageInfo { total_space: 100, available_space: 50, used_space: 50 };

    let cloned = info.clone();

    assert_eq!(cloned.total_space, info.total_space);
    assert_eq!(cloned.available_space, info.available_space);
    assert_eq!(cloned.used_space, info.used_space);
    let percent = |s: &StorageInfo| s.used_space as f64 / s.total_space as f64 * 100.0;
    assert!((percent(&cloned) - percent(&info)).abs() < 0.001);
    assert!((percent(&info) - 50.0).abs() < 0.001);
}

#[test]
fn test_storage_info_debug() {
    let info = StorageInfo { total_space: 100, available_space: 50, used_space: 50 };

    let debug_str = format!("{:?}", info);

    assert!(debug_str.contains("StorageInfo"));
    assert!(debug_str.contains("total_space"));
    assert!(debug_str.contains("100"));
}

#[test]
fn test_disk_manager_new() {
    let config = Config::default();
    let manager = DiskManager::new(config.clone());

    assert_eq!(manager.get_files_deleted(), 0);
    assert_eq!(manager.get_config().segment_duration, config.segment_duration);
}

#[test]
fn test_disk_manager_files_deleted_counter() {
    let config = Config::default();
    let mut manager = DiskManager::new(config);

    assert_eq!(manager.get_files_deleted(), 0);

    manager.add_files_deleted(5);
    assert_eq!(manager.get_files_deleted(), 5);

    manager.add_files_deleted(3);
    assert_eq!(manager.get_files_deleted(), 8);
}

#[test]
fn test_disk_manager_last_cleanup_initially_none() {
    let config = Config::default();
    let manager = DiskManager::new(config);

    assert!(manager.get_last_cleanup().is_none());
}

#[test]
fn test_disk_manager_get_config() {
    let mut config = Config::default();
    config.segment_duration = 42;
    config.max_disk_usage_percent_bits = 75.0f64.to_bits();

    let manager = DiskManager::new(config);

    assert_eq!(manager.get_config().segment_duration, 42);
    assert!((f64::from_bits(manager.get_config().max_disk_usage_percent_bits) - 75.0).abs() < 0.001);
}

#[test]
fn files_deleted_counter_wraps_like_an_atomic() {
    let mut manager = DiskManager::new(Config::default());
    manager.add_files_deleted(u64::MAX);
    manager.add_files_deleted(3);
    assert_eq!(manager.get_files_deleted(), 2);
}

#[test]
fn finish_cleanup_records_time() {
    let mut manager = DiskManager::new(Config::default());
    let t = UtcTime { secs: 1_700_000_000, nanos: 5 };
    manager.finish_cleanup(t);
    assert_eq!(manager.get_last_cleanup(), Some(t));
}

#[test]
fn storage_figures_estimate_total_as_ten_times_available() {
    let info = storage_from(50, estimated_total_space(50));
    assert_eq!(info, StorageInfo { total_space: 500, available_space: 50, used_space: 450 });
    let empty = storage_from(0, estimated_total_space(0));
    assert_eq!(empty, StorageInfo { total_space: 0, available_space: 0, used_space: 0 });
    let changed = storage_from(60, estimated_total_space(5));
    assert_eq!(changed, StorageInfo { total_space: 50, available_space: 60, used_space: 0 });
}

#[test]
fn segment_paths_end_in_mp4() {
    assert!(is_segment_path("/r/cam/segment_cam_20240101_000000_000001.mp4"));
    assert!(!is_segment_path("/r/cam/notes.txt"));
    assert!(!is_segment_path("/r/cam/x.MP4"));
}

#[test]
fn oldest_first_is_a_stable_sort() {
    let keys = vec![30i128, 10, 20, 10, -5];
    assert_eq!(oldest_first(&keys), vec![4, 1, 3, 2, 0]);
    assert_eq!(oldest_first(&vec![]), Vec::<usize>::new());
}

fn candidate(path: &str, created: i128, size: u64) -> CleanupCandidate {
    CleanupCandidate { path: path.to_string(), created, size }
}

#[test]
fn cleanup_plan_deletes_oldest_until_space() {
    let mut plan = CleanupPlan::new(vec![
        candidate("new.mp4", 300, 3),
        candidate("old.mp4", 100, 1),
        candidate("mid.mp4", 200, 2),
    ]);
    assert!(plan.has_next());
    let first = plan.step(false).unwrap();
    assert_eq!(plan.candidate(first).path, "old.mp4");
    plan.record_removal(true);
    let second = plan.step(false).unwrap();
    assert_eq!(plan.candidate(second).path, "mid.mp4");
    plan.record_removal(false);
    assert_eq!(plan.step(true), None);
    assert!(!plan.has_next());
    assert_eq!(plan.deleted_count(), 1);
    assert_eq!(plan.deleted_size(), 1);
}

#[test]
fn cleanup_plan_runs_out_of_candidates() {
    let mut plan = CleanupPlan::new(vec![candidate("a.mp4", 1, 10)]);
    let i = plan.step(false).unwrap();
    assert_eq!(i, 0);
    plan.record_removal(true);
    assert!(!plan.has_next());
    assert_eq!(plan.step(false), None);
    assert_eq!(plan.deleted_size(), 10);
}

#[test]
fn cleanup_directories_cover_enabled_streams() {
    let mut config = Config::default();
    config.output_dir = "/r".to_string();
    config.streams = vec![
        StreamConfig { id: "a".to_string(), url: "u".to_string(), enabled: true, output_subdir: None },
        StreamConfig { id: "b".to_string(), url: "u".to_string(), enabled: false, output_subdir: None },
        StreamConfig {
            id: "c".to_string(),
            url: "u".to_string(),
            enabled: true,
            output_subdir: Some("cc".to_string()),
        },
    ];
    let manager = DiskManager::new(config);
    assert_eq!(manager.cleanup_directories(), vec!["/r", "/r/a", "/r/cc"]);
}

fn entry(path: Option<&str>, is_file: bool, len: u64) -> DirEntryFacts {
    DirEntryFacts { path: path.map(|p| p.to_string()), is_file, len }
}

#[test]
fn stream_storage_counts_mp4_files() {
    let mut config = Config::default();
    config.output_dir = "/r".to_string();
    config.segment_duration = 10;
    let manager = DiskManager::new(config);
    let entries = vec![
        entry(Some("/r/cam/a.mp4"), true, 100),
        entry(Some("/r/cam/b.mp4"), false, 7),
        entry(Some("/r/cam/c.txt"), true, 9),
        entry(None, true, 11),
        entry(Some("/r/cam/d.mp4"), true, 50),
    ];
    let info = manager.summarize_stream_storage("cam", &entries);
    assert_eq!(info.stream_id, "cam");
    assert_eq!(info.directory, "/r/cam");
    assert_eq!(info.total_files, 2);
    assert_eq!(info.total_size, 150);
    assert_eq!(info.estimated_duration, 20);
}

#[test]
fn cleanup_candidates_are_mp4_files_with_known_creation() {
    let c = cleanup_candidate(Some("/r/a.mp4".to_string()), true, Some(5), 9).unwrap();
    assert_eq!((c.path.as_str(), c.created, c.size), ("/r/a.mp4", 5, 9));
    assert!(cleanup_candidate(Some("/r/a.mp4".to_string()), false, Some(5), 9).is_none());
    assert!(cleanup_candidate(None, true, Some(5), 9).is_none());
    assert!(cleanup_candidate(Some("/r/a.txt".to_string()), true, Some(5), 9).is_none());
    assert!(cleanup_candidate(Some("/r/a.mp4".to_string()), true, None, 9).is_none());
}

#[test]
fn checked_stream_storage_refuses_overflowing_sums() {
    let manager = DiskManager::new(Config::default());
    let big = vec![
        entry(Some("/x/a.mp4"), true, u64::MAX),
        entry(Some("/x/b.mp4"), true, 1),
    ];
    assert!(manager.checked_stream_storage("x", &big).is_none());
    let small = vec![entry(Some("/x/a.mp4"), true, 3)];
    let info = manager.checked_stream_storage("x", &small).unwrap();
    assert_eq!((info.total_files, info.total_size, info.estimated_duration), (1, 3, 10));
}

#[test]
fn finishing_a_run_counts_its_deletions() {
    let mut manager = DiskManager::new(Config::default());
    manager.add_files_deleted(4);
    let mut plan = CleanupPlan::new(vec![candidate("a.mp4", 1, 10), candidate("b.mp4", 2, 20), candidate("c.mp4", 3, 40)]);
    plan.step(false).unwrap();
    plan.record_removal(true);
    plan.step(false).unwrap();
    plan.record_removal(false);
    plan.step(false).unwrap();
    plan.record_removal(true);
    let t = UtcTime { secs: 7, nanos: 0 };
    let bytes = manager.finish_cleanup_run(&plan, t);
    assert_eq!(bytes, 50);
    assert_eq!(manager.get_files_deleted(), 6);
    assert_eq!(manager.get_last_cleanup(), Some(t));
}

#[test]
fn all_streams_storage_skips_missing_directories() {
    let mut config = Config::default();
    config.output_dir = "/r".to_string();
    config.streams = vec![
        StreamConfig { id: "a".to_string(), url: "u".to_string(), enabled: true, output_subdir: None },
        StreamConfig { id: "b".to_string(), url: "u".to_string(), enabled: false, output_subdir: None },
        StreamConfig { id: "c".to_string(), url: "u".to_string(), enabled: true, output_subdir: None },
        StreamConfig { id: "d".to_string(), url: "u".to_string(), enabled: true, output_subdir: None },
    ];
    let manager = DiskManager::new(config);
    let ids = manager.reported_stream_ids();
    assert_eq!(ids, vec!["a", "c", "d"]);
    let listings = vec![Some(vec![entry(Some("/r/a/x.mp4"), true, 5)]), None, Some(vec![])];
    let reports = manager.collect_streams_storage(&ids, &listings).unwrap();
    assert_eq!(reports.len(), 2);
    assert_eq!((reports[0].stream_id.as_str(), reports[0].total_files, reports[0].total_size), ("a", 1, 5));
    assert_eq!(reports[0].estimated_duration, 10);
    assert_eq!((reports[1].stream_id.as_str(), reports[1].directory.as_str(), reports[1].total_files), ("d", "/r/d", 0));
    let big = vec![Some(vec![entry(Some("/r/a/x.mp4"), true, u64::MAX), entry(Some("/r/a/y.mp4"), true, 1)]), None, None];
    assert!(manager.collect_streams_storage(&ids, &big).is_none());
}

#[test]
fn aborted_run_counts_its_deletions_only() {
    let mut manager = DiskManager::new(Config::default());
    let t = UtcTime { secs: 3, nanos: 0 };
    manager.finish_cleanup(t);
    let mut plan = CleanupPlan::new(vec![candidate("a.mp4", 1, 10), candidate("b.mp4", 2, 20)]);
    plan.step(false).unwrap();
    plan.record_removal(true);
    manager.abort_cleanup_run(&plan);
    assert_eq!(manager.get_files_deleted(), 1);
    assert_eq!(manager.get_last_cleanup(), Some(t));
}
