//! Replies of the HTTP API: the bodies it returns and the answer to each
//! start and stop request.

use vstd::prelude::*;
use vstd::string::StringExecFns;
use crate::error::RecorderError;
use crate::recorder::{MultiStreamStats, RecordingStats, UtcTime};
use crate::timefmt::{rfc3339, rfc3339_of};
use crate::storage::StorageInfo;

verus! {

/// Status code of a request that failed inside the recorder.
pub const INTERNAL_SERVER_ERROR: u16 = 500;

/// Body of the health check.
#[derive(Debug)]
pub struct HealthResponse {
    pub status: String,
    pub uptime: u64,
    /// RFC 3339 time of the answer.
    pub timestamp: String,
    pub recording: bool,
    pub storage: StorageInfo,
}

/// Body of the metrics of the first enabled stream.
#[derive(Debug)]
pub struct MetricsResponse {
    pub recording_stats: RecordingStats,
    pub storage_info: StorageInfo,
    pub files_deleted: u64,
    /// RFC 3339 time of the last cleanup.
    pub last_cleanup: Option<String>,
}

/// Body of the metrics of all streams.
#[derive(Debug)]
pub struct MultiStreamMetricsResponse {
    pub multi_stream_stats: MultiStreamStats,
    pub storage_info: StorageInfo,
    pub files_deleted: u64,
    pub last_cleanup: Option<String>,
}

/// Body of the stream list.
#[derive(Debug, Clone)]
pub struct StreamListResponse {
    pub streams: Vec<String>,
}

/// Body of a start request (it carries nothing).
#[derive(Debug, Clone, Copy)]
pub struct StartRequest {}

/// The health check's answer at time `now`: healthy, with no uptime tracked
/// (`None` when `now` has no calendar text).
pub fn health_response(now: UtcTime, recording: bool, storage: StorageInfo) -> (h: Option<
    HealthResponse,
>)
    ensures
        rfc3339_of(now.secs, now.nanos) is None ==> h is None,
        rfc3339_of(now.secs, now.nanos) matches Some(t) ==> (h matches Some(h) && h.status@
            == "healthy"@ && h.uptime == 0 && h.timestamp@ == t && h.recording == recording
            && h.storage == storage),
{
    match rfc3339(now) {
        Some(timestamp) => Some(
            HealthResponse {
                status: String::from_str("healthy"),
                uptime: 0,
                timestamp,
                recording,
                storage,
            },
        ),
        None => None,
    }
}

/// Calendar text of the last cleanup, if there was one.
pub open spec fn cleanup_text(last_cleanup: Option<UtcTime>) -> Option<Seq<char>> {
    match last_cleanup {
        Some(t) => rfc3339_of(t.secs, t.nanos),
        None => None,
    }
}

fn last_cleanup_text(last_cleanup: Option<UtcTime>) -> (r: Option<String>)
    ensures
        r.deep_view() == cleanup_text(last_cleanup),
{
    match last_cleanup {
        Some(t) => rfc3339(t),
        None => None,
    }
}

/// The metrics of the first enabled stream with the disk figures.
pub fn metrics_response(
    recording_stats: RecordingStats,
    storage_info: StorageInfo,
    files_deleted: u64,
    last_cleanup: Option<UtcTime>,
) -> (m: MetricsResponse)
    ensures
        m.recording_stats@ == recording_stats@,
        m.storage_info == storage_info,
        m.files_deleted == files_deleted,
        m.last_cleanup.deep_view() == cleanup_text(last_cleanup),
{
    MetricsResponse {
        recording_stats,
        storage_info,
        files_deleted,
        last_cleanup: last_cleanup_text(last_cleanup),
    }
}

/// The metrics of all streams with the disk figures.
pub fn multi_stream_metrics_response(
    multi_stream_stats: MultiStreamStats,
    storage_info: StorageInfo,
    files_deleted: u64,
    last_cleanup: Option<UtcTime>,
) -> (m: MultiStreamMetricsResponse)
    ensures
        m.multi_stream_stats == multi_stream_stats,
        m.storage_info == storage_info,
        m.files_deleted == files_deleted,
        m.last_cleanup.deep_view() == cleanup_text(last_cleanup),
{
    MultiStreamMetricsResponse {
        multi_stream_stats,
        storage_info,
        files_deleted,
        last_cleanup: last_cleanup_text(last_cleanup),
    }
}

/// The answer to a request to start all streams.
pub fn start_recording_reply(outcome: &Result<Vec<String>, RecorderError>) -> (r: Result<
    String,
    u16,
>)
    ensures
        outcome is Ok ==> (r matches Ok(m) && m@ == "Recording started"@),
        outcome is Err ==> r == Err::<String, u16>(INTERNAL_SERVER_ERROR),
{
    match outcome {
        Ok(_) => Ok(String::from_str("Recording started")),
        Err(_) => Err(INTERNAL_SERVER_ERROR),
    }
}

/// The answer to a request to stop all streams.
pub fn stop_recording_reply(outcome: &Result<Vec<String>, RecorderError>) -> (r: Result<
    String,
    u16,
>)
    ensures
        outcome is Ok ==> (r matches Ok(m) && m@ == "Recording stopped"@),
        outcome is Err ==> r == Err::<String, u16>(INTERNAL_SERVER_ERROR),
{
    match outcome {
        Ok(_) => Ok(String::from_str("Recording stopped")),
        Err(_) => Err(INTERNAL_SERVER_ERROR),
    }
}

/// The answer to a request to start one stream.
pub fn start_stream_reply(stream_id: &str, outcome: &Result<(), RecorderError>) -> (r: Result<
    String,
    u16,
>)
    ensures
        outcome is Ok ==> (r matches Ok(m) && m@ == "Recording started for stream: "@ + stream_id@),
        outcome is Err ==> r == Err::<String, u16>(INTERNAL_SERVER_ERROR),
{
    match outcome {
        Ok(_) => {
            let mut m = String::from_str("Recording started for stream: ");
            m.append(stream_id);
            Ok(m)
        },
        Err(_) => Err(INTERNAL_SERVER_ERROR),
    }
}

/// The answer to a request to stop one stream.
pub fn stop_stream_reply(stream_id: &str, outcome: &Result<(), RecorderError>) -> (r: Result<
    String,
    u16,
>)
    ensures
        outcome is Ok ==> (r matches Ok(m) && m@ == "Recording stopped for stream: "@ + stream_id@),
        outcome is Err ==> r == Err::<String, u16>(INTERNAL_SERVER_ERROR),
{
    match outcome {
        Ok(_) => {
            let mut m = String::from_str("Recording stopped for stream: ");
            m.append(stream_id);
            Ok(m)
        },
        Err(_) => Err(INTERNAL_SERVER_ERROR),
    }
}

} // verus!
