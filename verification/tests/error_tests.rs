use stream_recorder::error::RecorderError;

#[test]
fn test_already_recording_error_display() {
    let error = RecorderError::AlreadyRecording;
    assert_eq!(error.message(), "Recording already in progress");
}

#[test]
fn test_not_recording_error_display() {
    let error = RecorderError::NotRecording;
    assert_eq!(error.message(), "Recording not active");
}

#[test]
fn test_disk_full_error_display() {
    let error = RecorderError::DiskFull;
    assert_eq!(error.message(), "Disk full - cannot continue recording");
}

#[test]
fn test_stream_connection_error_display() {
    let error = RecorderError::StreamConnection("Connection refused".to_string());
    assert_eq!(error.message(), "Stream connection failed: Connection refused");
}

#[test]
fn test_io_error_conversion() {
    let io_error = std::io::Error::new(std::io::ErrorKind::NotFound, "File not found");
    let recorder_error = RecorderError::from_io_error(io_error);
    assert!(matches!(recorder_error, RecorderError::Io(_)));
    assert!(recorder_error.message().contains("IO error"));
}

#[test]
fn io_error_carries_the_system_text() {
    let io_error = std::io::Error::new(std::io::ErrorKind::NotFound, "File not found");
    let recorder_error = RecorderError::from_io_error(io_error);
    assert_eq!(recorder_error.message(), "IO error: File not found");
}

#[test]
fn test_error_is_debug() {
    let error = RecorderError::DiskFull;
    let debug_str = format!("{:?}", error);
    assert!(debug_str.contains("DiskFull"));
}

#[test]
fn outside_errors_carry_their_text() {
    assert_eq!(RecorderError::FFmpeg("bad".to_string()).message(), "FFmpeg error: bad");
    assert_eq!(RecorderError::Http("down".to_string()).message(), "HTTP error: down");
    assert_eq!(RecorderError::Anyhow("x".to_string()).message(), "Anyhow error: x");
}
