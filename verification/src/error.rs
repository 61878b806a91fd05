//! Errors of the recorder and the text each one displays.

use vstd::prelude::*;
use vstd::string::StringExecFns;

verus! {

/// What can go wrong while recording. Errors that come from FFmpeg, from the
/// operating system, from HTTP or from elsewhere carry the text that the
/// underlying error displays.
#[derive(Debug)]
pub enum RecorderError {
    FFmpeg(String),
    Io(String),
    Http(String),
    AlreadyRecording,
    NotRecording,
    DiskFull,
    StreamConnection(String),
    Anyhow(String),
}

/// The text an error displays.
pub open spec fn error_message(e: RecorderError) -> Seq<char> {
    match e {
        RecorderError::FFmpeg(m) => "FFmpeg error: "@ + m@,
        RecorderError::Io(m) => "IO error: "@ + m@,
        RecorderError::Http(m) => "HTTP error: "@ + m@,
        RecorderError::AlreadyRecording => "Recording already in progress"@,
        RecorderError::NotRecording => "Recording not active"@,
        RecorderError::DiskFull => "Disk full - cannot continue recording"@,
        RecorderError::StreamConnection(m) => "Stream connection failed: "@ + m@,
        RecorderError::Anyhow(m) => "Anyhow error: "@ + m@,
    }
}

fn with_prefix(prefix: &str, m: &String) -> (r: String)
    ensures
        r@ == prefix@ + m@,
{
    let mut r = String::from_str(prefix);
    r.append(m.as_str());
    r
}

#[verifier::external_type_specification]
#[verifier::external_body]
pub struct ExIoError(std::io::Error);

/// The text that `std::io::Error`'s `Display` shows. Nothing is stated of
/// it: it depends on the error's kind and payload, which stay opaque here.
#[verifier::external_body]
fn io_error_text(e: &std::io::Error) -> (r: String) {
    e.to_string()
}

impl RecorderError {
    /// The error of a failed operating-system operation: an `Io` error
    /// carrying the text that the operating system's error shows.
    pub fn from_io_error(e: std::io::Error) -> (r: RecorderError)
        ensures
            r is Io,
    {
        RecorderError::Io(io_error_text(&e))
    }

    /// The text this error displays (see `error_message`).
    pub fn message(&self) -> (r: String)
        ensures
            r@ == error_message(*self),
    {
        match self {
            RecorderError::FFmpeg(m) => with_prefix("FFmpeg error: ", m),
            RecorderError::Io(m) => with_prefix("IO error: ", m),
            RecorderError::Http(m) => with_prefix("HTTP error: ", m),
            RecorderError::AlreadyRecording => String::from_str("Recording already in progress"),
            RecorderError::NotRecording => String::from_str("Recording not active"),
            RecorderError::DiskFull => String::from_str("Disk full - cannot continue recording"),
            RecorderError::StreamConnection(m) => with_prefix("Stream connection failed: ", m),
            RecorderError::Anyhow(m) => with_prefix("Anyhow error: ", m),
        }
    }
}

} // verus!
