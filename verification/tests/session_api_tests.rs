use stream_recorder::api::{
    health_response, metrics_response, start_recording_reply, start_stream_reply,
    stop_recording_reply, stop_stream_reply, StartRequest, StreamListResponse,
    INTERNAL_SERVER_ERROR,
};
use stream_recorder::config::Config;
use stream_recorder::error::RecorderError;
use stream_recorder::recorder::{RecordingStats, UtcTime};
use stream_recorder::session::{
    check_dimensions, codec_failed, create_input_options, decoder_failed, finish_segment,
    generate_segment_path, keep_filling_segment, no_video_stream, open_failed, segment_path_at,
    space_step, space_to_connect, SpaceStep,
};
use stream_recorder::storage::StorageInfo;

fn message(e: RecorderError) -> String {
    match e {
        RecorderError::StreamConnection(m) => m,
        other => panic!("unexpected {:?}", other),
    }
}

#[test]
fn input_options_for_rtsp_and_http() {
    let config = Config::default();
    let rtsp = create_input_options(&config, "rtsp://cam/1");
    assert_eq!(
        rtsp,
        vec![
            ("analyzeduration".to_string(), "10000000".to_string()),
            ("probesize".to_string(), "10000000".to_string()),
            ("rtsp_transport".to_string(), "tcp".to_string()),
        ]
    );
    let http = create_input_options(&config, "https://cam/1");
    assert_eq!(http.len(), 2);
}

#[test]
fn segment_paths() {
    let mut config = Config::default();
    config.output_dir = "/r".to_string();
    assert_eq!(
        generate_segment_path(&config, "cam", "20250924_161814", 3),
        "/r/cam/segment_cam_20250924_161814_000003.mp4"
    );
    let at_epoch = segment_path_at(&config, "cam", UtcTime { secs: 0, nanos: 0 }, 12).unwrap();
    assert_eq!(at_epoch, "/r/cam/segment_cam_19700101_000000_000012.mp4");
}

#[test]
fn segment_counter_checks_disk_every_tenth() {
    assert_eq!(finish_segment(0), (1, false));
    assert_eq!(finish_segment(9), (10, true));
    assert_eq!(finish_segment(19), (20, true));
    assert!(keep_filling_segment(true, 9, 10));
    assert!(!keep_filling_segment(true, 10, 10));
    assert!(!keep_filling_segment(false, 0, 10));
}

#[test]
fn session_errors() {
    assert!(check_dimensions("rtsp://x", 640, 480).is_ok());
    assert_eq!(
        message(check_dimensions("rtsp://x", 0, 480).unwrap_err()),
        "Stream rtsp://x has unspecified dimensions (0x480). This is common with HEVC streams. Try: FFMPEG_ANALYZEDURATION=30000000 FFMPEG_PROBESIZE=30000000 RTSP_TRANSPORT=tcp"
    );
    assert_eq!(
        message(no_video_stream("u")),
        "No video stream found in u. The stream may not contain video data or may be using an unsupported format."
    );
    assert_eq!(
        message(open_failed("u", "e")),
        "Cannot connect to stream u: e. This may be due to codec parameter detection issues with HEVC/H.265 streams. Consider increasing FFMPEG_ANALYZEDURATION (>10000000\u{3bc}s) or FFMPEG_PROBESIZE (>10000000 bytes) environment variables."
    );
    assert!(message(codec_failed("u", "e")).starts_with("Codec parameter detection failed for stream u: e."));
    assert!(message(decoder_failed("u", "e")).starts_with("Video decoder creation failed for u: e."));
}

#[test]
fn api_replies() {
    let ok: Result<Vec<String>, RecorderError> = Ok(vec![]);
    let err: Result<Vec<String>, RecorderError> = Err(RecorderError::NotRecording);
    assert_eq!(start_recording_reply(&ok), Ok("Recording started".to_string()));
    assert_eq!(stop_recording_reply(&ok), Ok("Recording stopped".to_string()));
    assert_eq!(start_recording_reply(&err), Err(INTERNAL_SERVER_ERROR));
    assert_eq!(stop_recording_reply(&err), Err(500));
    assert_eq!(start_stream_reply("cam", &Ok(())), Ok("Recording started for stream: cam".to_string()));
    assert_eq!(stop_stream_reply("cam", &Ok(())), Ok("Recording stopped for stream: cam".to_string()));
    assert_eq!(stop_stream_reply("cam", &Err(RecorderError::NotRecording)), Err(500));
    let list = StreamListResponse { streams: vec!["a".to_string()] };
    assert_eq!(list.streams.len(), 1);
    let _ = StartRequest {};
}

#[test]
fn health_and_metrics_carry_calendar_times() {
    let storage = StorageInfo { total_space: 10, available_space: 1, used_space: 9 };
    let h = health_response(UtcTime { secs: 0, nanos: 0 }, true, storage).unwrap();
    assert_eq!(h.status, "healthy");
    assert_eq!(h.uptime, 0);
    assert_eq!(h.timestamp, "1970-01-01T00:00:00+00:00");
    assert!(h.recording);
    let m = metrics_response(
        RecordingStats { started_at: None, files_recorded: 1, total_duration: 10, last_file: None },
        storage,
        4,
        Some(UtcTime { secs: 86_400, nanos: 0 }),
    );
    assert_eq!(m.last_cleanup, Some("1970-01-02T00:00:00+00:00".to_string()));
    assert_eq!(m.files_deleted, 4);
    let none = metrics_response(RecordingStats::empty(), storage, 0, None);
    assert!(none.last_cleanup.is_none());
}

#[test]
fn disk_checks_decide_the_session() {
    assert!(space_to_connect(true).is_ok());
    assert!(matches!(space_to_connect(false), Err(RecorderError::DiskFull)));
    assert!(matches!(space_step(true, false), Ok(SpaceStep::Continue)));
    assert!(matches!(space_step(true, true), Ok(SpaceStep::Continue)));
    assert!(matches!(space_step(false, false), Ok(SpaceStep::CleanUp)));
    assert!(matches!(space_step(false, true), Err(RecorderError::DiskFull)));
}
