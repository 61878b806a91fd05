use stream_recorder::config::{Config, Environment, StreamConfig};

fn stream(id: &str, url: &str, enabled: bool, output_subdir: Option<&str>) -> StreamConfig {
    StreamConfig {
        id: id.to_string(),
        url: url.to_string(),
        enabled,
        output_subdir: output_subdir.map(|s| s.to_string()),
    }
}

fn env(vars: &[(&str, &str)]) -> Environment {
    Environment {
        vars: vars.iter().map(|(k, v)| (k.to_string(), v.to_string())).collect(),
    }
}

#[test]
fn test_default_config_values() {
    let config = Config::default();

    assert_eq!(config.segment_duration, 10);
    assert_eq!(f64::from_bits(config.max_disk_usage_percent_bits), 90.0);
    assert_eq!(config.cleanup_check_interval, 60);
    assert_eq!(config.server_port, 8080);
    assert_eq!(config.server_host, "0.0.0.0");
    assert!(config.auto_start);
    assert_eq!(config.max_retries, 0);
    assert_eq!(config.retry_delay, 5);
    assert_eq!(config.ffmpeg_analyzeduration, 10_000_000);
    assert_eq!(config.ffmpeg_probesize, 10_000_000);
    assert_eq!(config.rtsp_transport, "tcp");
    assert!(config.streams.is_empty());
    assert!(config.stream_url.is_none());
}

#[test]
fn test_migrate_legacy_config_creates_stream_from_url() {
    let mut config = Config::default();
    config.stream_url = Some("rtsp://example.com/stream".to_string());
    config.streams = vec![];

    config.migrate_legacy_config();

    assert_eq!(config.streams.len(), 1);
    assert_eq!(config.streams[0].id, "default");
    assert_eq!(config.streams[0].url, "rtsp://example.com/stream");
    assert!(config.streams[0].enabled);
    assert!(config.streams[0].output_subdir.is_none());
}

#[test]
fn test_migrate_legacy_config_does_not_overwrite_existing_streams() {
    let mut config = Config::default();
    config.stream_url = Some("rtsp://example.com/stream".to_string());
    config.streams = vec![stream("existing", "rtsp://other.com/stream", true, None)];

    config.migrate_legacy_config();

    assert_eq!(config.streams.len(), 1);
    assert_eq!(config.streams[0].id, "existing");
}

#[test]
fn test_migrate_legacy_config_sets_stream_url_from_first_enabled() {
    let mut config = Config::default();
    config.stream_url = None;
    config.streams = vec![
        stream("disabled", "rtsp://disabled.com/stream", false, None),
        stream("enabled", "rtsp://enabled.com/stream", true, None),
    ];

    config.migrate_legacy_config();

    assert_eq!(config.stream_url, Some("rtsp://enabled.com/stream".to_string()));
}

#[test]
fn test_get_stream_output_dir_with_custom_subdir() {
    let mut config = Config::default();
    config.output_dir = "/recordings".to_string();
    config.streams = vec![stream("cam1", "rtsp://example.com/cam1", true, Some("custom_subdir"))];

    let output_dir = config.get_stream_output_dir("cam1");

    assert_eq!(output_dir, "/recordings/custom_subdir");
}

#[test]
fn test_get_stream_output_dir_uses_stream_id_as_default() {
    let mut config = Config::default();
    config.output_dir = "/recordings".to_string();
    config.streams = vec![stream("cam2", "rtsp://example.com/cam2", true, None)];

    let output_dir = config.get_stream_output_dir("cam2");

    assert_eq!(output_dir, "/recordings/cam2");
}

#[test]
fn test_get_stream_output_dir_for_unknown_stream() {
    let mut config = Config::default();
    config.output_dir = "/recordings".to_string();
    config.streams = vec![];

    let output_dir = config.get_stream_output_dir("unknown");

    assert_eq!(output_dir, "/recordings/unknown");
}

#[test]
fn test_get_enabled_streams_filters_disabled() {
    let config = Config {
        streams: vec![
            stream("enabled1", "rtsp://example.com/1", true, None),
            stream("disabled", "rtsp://example.com/2", false, None),
            stream("enabled2", "rtsp://example.com/3", true, None),
        ],
        ..Config::default()
    };

    let enabled = config.get_enabled_streams();

    assert_eq!(enabled.len(), 2);
    assert_eq!(enabled[0].id, "enabled1");
    assert_eq!(enabled[1].id, "enabled2");
}

#[test]
fn test_get_enabled_streams_returns_empty_when_all_disabled() {
    let config = Config {
        streams: vec![stream("disabled", "rtsp://example.com/1", false, None)],
        ..Config::default()
    };

    let enabled = config.get_enabled_streams();

    assert!(enabled.is_empty());
}

#[test]
fn migrate_twice_changes_nothing_more() {
    let mut config = Config::default();
    config.stream_url = Some("rtsp://a/1".to_string());
    config.migrate_legacy_config();
    let once = format!("{:?}", config);
    config.migrate_legacy_config();
    assert_eq!(format!("{:?}", config), once);
}

#[test]
fn migrate_without_enabled_streams_keeps_url_unset() {
    let mut config = Config::default();
    config.streams = vec![stream("off", "rtsp://off", false, None)];
    config.migrate_legacy_config();
    assert!(config.stream_url.is_none());
    assert_eq!(config.streams.len(), 1);
}

#[test]
fn output_dir_joins_absolute_subdir_as_replacement() {
    let mut config = Config::default();
    config.output_dir = "/recordings".to_string();
    config.streams = vec![stream("cam", "rtsp://x", true, Some("/elsewhere"))];
    assert_eq!(config.get_stream_output_dir("cam"), "/elsewhere");
}

#[test]
fn output_dir_with_trailing_separator() {
    let mut config = Config::default();
    config.output_dir = "/recordings/".to_string();
    assert_eq!(config.get_stream_output_dir("cam"), "/recordings/cam");
    config.output_dir = String::new();
    assert_eq!(config.get_stream_output_dir("cam"), "cam");
}

#[test]
fn env_overrides_numbers_texts_and_flags() {
    let mut config = Config::default();
    let e = env(&[
        ("STREAM_URL", "rtsp://legacy"),
        ("OUTPUT_DIR", "/data"),
        ("SEGMENT_DURATION", "30"),
        ("CLEANUP_CHECK_INTERVAL", "+120"),
        ("PORT", "9090"),
        ("HOST", "127.0.0.1"),
        ("AUTO_START", "FALSE"),
        ("FFMPEG_ANALYZEDURATION", "20000000"),
        ("FFMPEG_PROBESIZE", "abc"),
        ("RTSP_TRANSPORT", "udp"),
    ]);
    config.load_from_env(&e, Some(85.0f64.to_bits()));
    assert_eq!(config.stream_url, Some("rtsp://legacy".to_string()));
    assert_eq!(config.output_dir, "/data");
    assert_eq!(config.segment_duration, 30);
    assert_eq!(f64::from_bits(config.max_disk_usage_percent_bits), 85.0);
    assert_eq!(config.cleanup_check_interval, 120);
    assert_eq!(config.server_port, 9090);
    assert_eq!(config.server_host, "127.0.0.1");
    assert!(!config.auto_start);
    assert_eq!(config.ffmpeg_analyzeduration, 20_000_000);
    assert_eq!(config.ffmpeg_probesize, 10_000_000);
    assert_eq!(config.rtsp_transport, "udp");
}

#[test]
fn env_rejects_out_of_range_and_unknown_values() {
    let mut config = Config::default();
    config.auto_start = false;
    let e = env(&[
        ("PORT", "70000"),
        ("SEGMENT_DURATION", "-5"),
        ("RTSP_TRANSPORT", "http"),
        ("AUTO_START", "True"),
    ]);
    config.load_from_env(&e, None);
    assert_eq!(config.server_port, 8080);
    assert_eq!(config.segment_duration, 10);
    assert_eq!(config.rtsp_transport, "tcp");
    assert!(config.auto_start);
    assert_eq!(f64::from_bits(config.max_disk_usage_percent_bits), 90.0);
}

#[test]
fn env_streams_from_ids() {
    let mut config = Config::default();
    config.streams = vec![stream("old", "rtsp://old", true, None)];
    let e = env(&[
        ("STREAM_IDS", " cam1 , ,cam2,cam3"),
        ("STREAM_URL_CAM1", "rtsp://one"),
        ("STREAM_URL_CAM2", "rtsp://two"),
        ("STREAM_ENABLED_CAM2", "false"),
        ("STREAM_SUBDIR_CAM1", "front"),
    ]);
    config.load_streams_from_env(&e);
    assert_eq!(config.streams.len(), 2);
    assert_eq!(config.streams[0].id, "cam1");
    assert_eq!(config.streams[0].url, "rtsp://one");
    assert!(config.streams[0].enabled);
    assert_eq!(config.streams[0].output_subdir, Some("front".to_string()));
    assert_eq!(config.streams[1].id, "cam2");
    assert!(!config.streams[1].enabled);
    assert!(config.streams[1].output_subdir.is_none());
}

#[test]
fn env_stream_ids_without_urls_keep_old_streams() {
    let mut config = Config::default();
    config.streams = vec![stream("old", "rtsp://old", true, None)];
    let e = env(&[("STREAM_IDS", "cam9")]);
    config.load_streams_from_env(&e);
    assert_eq!(config.streams.len(), 1);
    assert_eq!(config.streams[0].id, "old");
}

#[test]
fn env_lookup_takes_first_match() {
    let e = env(&[("A", "1"), ("A", "2")]);
    assert_eq!(e.lookup("A"), Some(&"1".to_string()));
    assert_eq!(e.lookup("B"), None);
}

#[test]
fn finish_load_applies_env_then_legacy_form() {
    let mut config = Config::default();
    let e = env(&[("STREAM_URL", "rtsp://only")]);
    config.finish_load(&e, None);
    assert_eq!(config.streams.len(), 1);
    assert_eq!(config.streams[0].id, "default");
    assert_eq!(config.streams[0].url, "rtsp://only");
    let dirs = config.directories_to_create();
    assert_eq!(dirs, vec!["./recordings".to_string(), "./recordings/default".to_string()]);
}

#[test]
fn clone_keeps_every_field() {
    let mut config = Config::default();
    config.streams = vec![stream("a", "rtsp://a", true, Some("x"))];
    let copy = config.clone();
    assert_eq!(format!("{:?}", copy), format!("{:?}", config));
}

#[test]
fn env_sets_retry_settings() {
    let mut config = Config::default();
    let e = env(&[("MAX_RETRIES", "10"), ("RETRY_DELAY", "30")]);
    config.load_from_env(&e, None);
    assert_eq!(config.max_retries, 10);
    assert_eq!(config.retry_delay, 30);
    assert_eq!(config.segment_duration, 10);
    assert_eq!(config.server_port, 8080);
}

#[test]
fn env_keeps_retry_settings_on_bad_values() {
    let mut config = Config::default();
    let e = env(&[("MAX_RETRIES", "5000000000"), ("RETRY_DELAY", "soon")]);
    config.load_from_env(&e, None);
    assert_eq!(config.max_retries, 0);
    assert_eq!(config.retry_delay, 5);
}
