use stream_recorder::config::{Config, StreamConfig};
use stream_recorder::error::RecorderError;
use stream_recorder::retry::RetryState;
use stream_recorder::session::keep_filling_segment;
use stream_recorder::recorder::{
    MultiStreamRecorder, MultiStreamStats, RecordingStats, StreamStats, UtcTime, VideoRecorder,
};

fn stream(id: &str, url: &str, enabled: bool) -> StreamConfig {
    StreamConfig { id: id.to_string(), url: url.to_string(), enabled, output_subdir: None }
}

fn two_stream_recorder() -> MultiStreamRecorder {
    let mut config = Config::default();
    config.streams = vec![
        stream("cam1", "rtsp://example.com/1", true),
        stream("off", "rtsp://example.com/off", false),
        stream("cam2", "rtsp://example.com/2", true),
    ];
    let mut recorder = MultiStreamRecorder::new(config);
    recorder.initialize_streams();
    recorder
}

#[test]
fn test_recording_stats_default_values() {
    let stats = RecordingStats { started_at: None, files_recorded: 0, total_duration: 0, last_file: None };

    assert!(stats.started_at.is_none());
    assert_eq!(stats.files_recorded, 0);
    assert_eq!(stats.total_duration, 0);
    assert!(stats.last_file.is_none());
}

#[test]
fn test_recording_stats_with_values() {
    let now = chrono::Utc::now();
    let now = UtcTime { secs: now.timestamp(), nanos: now.timestamp_subsec_nanos() };
    let stats = RecordingStats {
        started_at: Some(now),
        files_recorded: 42,
        total_duration: 3600,
        last_file: Some("/recordings/segment_001.mp4".to_string()),
    };

    assert_eq!(stats.started_at, Some(now));
    assert_eq!(stats.files_recorded, 42);
    assert_eq!(stats.total_duration, 3600);
    assert_eq!(stats.last_file, Some("/recordings/segment_001.mp4".to_string()));
}

#[test]
fn test_recording_stats_clone() {
    let stats = RecordingStats {
        started_at: Some(UtcTime { secs: 1_700_000_000, nanos: 0 }),
        files_recorded: 10,
        total_duration: 100,
        last_file: Some("/test.mp4".to_string()),
    };

    let cloned = stats.clone();

    assert_eq!(cloned.started_at, stats.started_at);
    assert_eq!(cloned.files_recorded, stats.files_recorded);
    assert_eq!(cloned.total_duration, stats.total_duration);
    assert_eq!(cloned.last_file, stats.last_file);
}

#[test]
fn test_stream_stats_creation() {
    let stats = StreamStats {
        stream_id: "cam1".to_string(),
        stream_url: "rtsp://example.com/stream".to_string(),
        is_recording: true,
        stats: RecordingStats { started_at: None, files_recorded: 20, total_duration: 200, last_file: None },
    };

    assert_eq!(stats.stream_id, "cam1");
    assert_eq!(stats.stream_url, "rtsp://example.com/stream");
    assert!(stats.is_recording);
    assert_eq!(stats.stats.files_recorded, 20);
}

#[test]
fn test_stream_stats_clone() {
    let stats = StreamStats {
        stream_id: "test".to_string(),
        stream_url: "rtsp://test.com".to_string(),
        is_recording: false,
        stats: RecordingStats { started_at: None, files_recorded: 0, total_duration: 0, last_file: None },
    };

    let cloned = stats.clone();

    assert_eq!(cloned.stream_id, stats.stream_id);
    assert_eq!(cloned.stream_url, stats.stream_url);
    assert_eq!(cloned.is_recording, stats.is_recording);
}

#[test]
fn test_multi_stream_stats_creation() {
    let stats = MultiStreamStats {
        streams: vec![
            StreamStats {
                stream_id: "cam1".to_string(),
                stream_url: "rtsp://example.com/1".to_string(),
                is_recording: true,
                stats: RecordingStats { started_at: None, files_recorded: 10, total_duration: 100, last_file: None },
            },
            StreamStats {
                stream_id: "cam2".to_string(),
                stream_url: "rtsp://example.com/2".to_string(),
                is_recording: false,
                stats: RecordingStats { started_at: None, files_recorded: 5, total_duration: 50, last_file: None },
            },
        ],
        total_files_recorded: 15,
        active_streams: 1,
    };

    assert_eq!(stats.streams.len(), 2);
    assert_eq!(stats.total_files_recorded, 15);
    assert_eq!(stats.active_streams, 1);
}

#[test]
fn test_multi_stream_stats_clone() {
    let stats = MultiStreamStats { streams: vec![], total_files_recorded: 100, active_streams: 3 };

    let cloned = stats.clone();

    assert_eq!(cloned.streams.len(), stats.streams.len());
    assert_eq!(cloned.total_files_recorded, stats.total_files_recorded);
    assert_eq!(cloned.active_streams, stats.active_streams);
}

#[test]
fn test_multi_stream_recorder_new() {
    let config = Config::default();
    let recorder = MultiStreamRecorder::new(config.clone());

    assert_eq!(recorder.config().segment_duration, config.segment_duration);
}

#[test]
fn test_multi_stream_recorder_list_streams_empty() {
    let recorder = MultiStreamRecorder::new(Config::default());

    let streams = recorder.list_streams();

    assert!(streams.is_empty());
}

#[test]
fn test_multi_stream_recorder_is_recording_when_empty() {
    let recorder = MultiStreamRecorder::new(Config::default());

    assert!(!recorder.is_recording());
}

#[test]
fn test_multi_stream_recorder_get_stats_when_empty() {
    let recorder = MultiStreamRecorder::new(Config::default());

    let stats = recorder.get_stats();

    assert!(stats.started_at.is_none());
    assert_eq!(stats.files_recorded, 0);
    assert_eq!(stats.total_duration, 0);
    assert!(stats.last_file.is_none());
}

#[test]
fn test_multi_stream_recorder_get_stream_stats_not_found() {
    let recorder = MultiStreamRecorder::new(Config::default());

    let stats = recorder.get_stream_stats("nonexistent");

    assert!(stats.is_none());
}

#[test]
fn test_multi_stream_recorder_is_stream_recording_not_found() {
    let recorder = MultiStreamRecorder::new(Config::default());

    assert!(!recorder.is_stream_recording("nonexistent"));
}

#[test]
fn test_multi_stream_recorder_get_multi_stream_stats_empty() {
    let recorder = MultiStreamRecorder::new(Config::default());

    let stats = recorder.get_multi_stream_stats();

    assert!(stats.streams.is_empty());
    assert_eq!(stats.total_files_recorded, 0);
    assert_eq!(stats.active_streams, 0);
}

#[test]
fn test_video_recorder_clone() {
    let config = Config::default();
    let recorder = VideoRecorder::new(config.clone());

    let cloned = recorder.clone();

    assert_eq!(cloned.config().segment_duration, recorder.config().segment_duration);
}

#[test]
fn initialize_registers_enabled_streams_in_order() {
    let recorder = two_stream_recorder();
    assert_eq!(recorder.list_streams(), vec!["cam1".to_string(), "cam2".to_string()]);
    assert!(!recorder.is_recording());
}

#[test]
fn start_and_stop_one_stream() {
    let mut recorder = two_stream_recorder();
    assert!(recorder.start_stream("cam1").is_ok());
    assert!(recorder.is_stream_recording("cam1"));
    assert!(matches!(recorder.start_stream("cam1"), Err(RecorderError::AlreadyRecording)));
    assert!(recorder.stop_stream("cam1").is_ok());
    assert!(!recorder.is_stream_recording("cam1"));
    assert!(matches!(recorder.stop_stream("cam1"), Err(RecorderError::NotRecording)));
    match recorder.start_stream("nope") {
        Err(RecorderError::StreamConnection(m)) => assert_eq!(m, "Stream not found: nope"),
        other => panic!("unexpected {:?}", other),
    }
    match recorder.stop_stream("nope") {
        Err(RecorderError::StreamConnection(m)) => assert_eq!(m, "Stream not found: nope"),
        other => panic!("unexpected {:?}", other),
    }
}

#[test]
fn start_all_and_stop_all() {
    let mut recorder = two_stream_recorder();
    let started = recorder.start().unwrap();
    assert_eq!(started, vec!["cam1".to_string(), "cam2".to_string()]);
    assert!(recorder.is_recording());
    match recorder.start() {
        Err(RecorderError::StreamConnection(m)) => assert_eq!(m, "No streams could be started"),
        other => panic!("unexpected {:?}", other),
    }
    let stats = recorder.get_multi_stream_stats();
    assert_eq!(stats.active_streams, 2);
    let stopped = recorder.stop().unwrap();
    assert_eq!(stopped, vec!["cam1".to_string(), "cam2".to_string()]);
    assert!(!recorder.is_recording());
    assert!(matches!(recorder.stop(), Err(RecorderError::NotRecording)));
}

#[test]
fn segments_update_statistics() {
    let mut recorder = two_stream_recorder();
    let t = UtcTime { secs: 1_000, nanos: 0 };
    recorder.set_started_at("cam2", t);
    recorder.record_segment("cam2", "/r/cam2/a.mp4".to_string());
    recorder.record_segment("cam2", "/r/cam2/b.mp4".to_string());
    let s = recorder.get_stream_stats("cam2").unwrap();
    assert_eq!(s.stream_id, "cam2");
    assert_eq!(s.stream_url, "rtsp://example.com/2");
    assert_eq!(s.stats.started_at, Some(t));
    assert_eq!(s.stats.files_recorded, 2);
    assert_eq!(s.stats.total_duration, 20);
    assert_eq!(s.stats.last_file, Some("/r/cam2/b.mp4".to_string()));
    let all = recorder.get_multi_stream_stats();
    assert_eq!(all.total_files_recorded, 2);
    assert_eq!(recorder.get_stats().files_recorded, 0);
}

#[test]
fn scans_set_counter_and_duration() {
    let mut recorder = two_stream_recorder();
    let names: Vec<String> =
        ["a.mp4", "b.mp4", ".mp4", "c.txt", "d.mp4.part"].iter().map(|s| s.to_string()).collect();
    let (count, duration) = recorder.summarize_scan("cam1", &names);
    assert_eq!((count, duration), (2, 20));
    recorder.apply_scan("cam1", count, duration);
    let s = recorder.get_stats();
    assert_eq!(s.total_duration, 20);
    assert_eq!(s.files_recorded, 2);
    assert_eq!(s.started_at, None);
    let cam1 = recorder.get_stream_stats("cam1").unwrap();
    assert_eq!(cam1.stats.files_recorded, 2);
    assert_eq!(cam1.stats.total_duration, 20);
    assert!(!cam1.is_recording);
    let cam2 = recorder.get_stream_stats("cam2").unwrap();
    assert_eq!(cam2.stats.files_recorded, 0);
    recorder.apply_scan("cam1", 1, 10);
    assert_eq!(recorder.get_stats().files_recorded, 1);
    assert_eq!(recorder.get_stats().total_duration, 10);
    assert_eq!(recorder.extract_duration_from_filename("x.mp4", "cam1"), Some(10));
    assert_eq!(recorder.checked_summarize_scan("cam1", &names), Some((2, 20)));
}

#[test]
fn reinitializing_resets_streams() {
    let mut recorder = two_stream_recorder();
    recorder.start_stream("cam1").unwrap();
    recorder.initialize_streams();
    assert!(!recorder.is_stream_recording("cam1"));
    assert_eq!(recorder.list_streams().len(), 2);
}

#[test]
fn ended_session_lets_stream_start_again() {
    let mut recorder = two_stream_recorder();
    recorder.start_stream("cam1").unwrap();
    recorder.start_stream("cam2").unwrap();
    recorder.end_session("cam1");
    assert!(!recorder.is_stream_recording("cam1"));
    assert!(recorder.is_stream_recording("cam2"));
    assert!(recorder.start_stream("cam1").is_ok());
    recorder.end_session("unknown");
    assert_eq!(recorder.list_streams().len(), 2);
}

#[test]
fn stopped_stream_ends_its_session_loops() {
    let mut recorder = two_stream_recorder();
    recorder.start_stream("cam1").unwrap();
    let flag = recorder.is_stream_recording("cam1");
    assert!(RetryState::new().may_attempt(flag, 0));
    assert!(keep_filling_segment(flag, 0, 10));
    recorder.stop_stream("cam1").unwrap();
    let flag = recorder.is_stream_recording("cam1");
    assert!(!RetryState::new().may_attempt(flag, 0));
    assert!(!keep_filling_segment(flag, 0, 10));
}

#[test]
fn one_stats_entry_per_listed_stream() {
    let mut recorder = two_stream_recorder();
    recorder.start_stream("cam2").unwrap();
    let ids = recorder.list_streams();
    let all = recorder.get_multi_stream_stats();
    assert_eq!(all.streams.len(), ids.len());
    for (entry, id) in all.streams.iter().zip(ids.iter()) {
        let one = recorder.get_stream_stats(id).unwrap();
        assert_eq!(&entry.stream_id, id);
        assert_eq!(entry.is_recording, one.is_recording);
        assert_eq!(entry.stats.files_recorded, one.stats.files_recorded);
    }
    assert_eq!(all.active_streams, 1);
    assert_eq!(recorder.is_recording(), ids.iter().any(|id| recorder.is_stream_recording(id)));
}
