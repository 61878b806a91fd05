//! Decisions inside one recording session: FFmpeg input options, segment file
//! paths, segment bookkeeping, and the errors a session reports.

use vstd::prelude::*;
use vstd::string::StringExecFns;
use crate::config::{Config, ConfigView, stream_output_dir};
use crate::error::RecorderError;
use crate::recorder::UtcTime;
use crate::timefmt::{civil_stamp_text, compact_stamp, compact_stamp_of, epoch_seconds, is_civil_time};
use crate::path::join_path_spec;
use crate::text::{
    decimal_string, decimal_text, starts_with, starts_with_spec, zero_padded_string,
    zero_padded_text,
};

verus! {

/// Width to which segment numbers are filled with zeros in file names.
pub const SEGMENT_INDEX_WIDTH: usize = 6;

/// Every this many segments the session checks the disk.
pub const DISK_CHECK_EVERY: u32 = 10;

/// FFmpeg options for opening a stream: probing limits, and the RTSP
/// transport for `rtsp://` URLs.
pub open spec fn input_options_spec(c: ConfigView, url: Seq<char>) -> Seq<(Seq<char>, Seq<char>)> {
    seq![
        ("analyzeduration"@, decimal_text(c.ffmpeg_analyzeduration as nat)),
        ("probesize"@, decimal_text(c.ffmpeg_probesize as nat)),
    ] + if starts_with_spec(url, "rtsp://"@) {
        seq![("rtsp_transport"@, c.rtsp_transport)]
    } else {
        Seq::<(Seq<char>, Seq<char>)>::empty()
    }
}

pub open spec fn pair_views(v: Seq<(String, String)>) -> Seq<(Seq<char>, Seq<char>)> {
    v.map_values(|p: (String, String)| (p.0@, p.1@))
}

/// The FFmpeg options for opening `stream_url` (see `input_options_spec`).
pub fn create_input_options(config: &Config, stream_url: &str) -> (opts: Vec<(String, String)>)
    ensures
        pair_views(opts@) == input_options_spec(config@, stream_url@),
{
    let mut opts: Vec<(String, String)> = Vec::new();
    let a = (String::from_str("analyzeduration"), decimal_string(config.ffmpeg_analyzeduration));
    let ghost av = (a.0@, a.1@);
    opts.push(a);
    let p = (String::from_str("probesize"), decimal_string(config.ffmpeg_probesize));
    let ghost pv = (p.0@, p.1@);
    opts.push(p);
    assert(pair_views(opts@) =~= seq![av, pv]);
    if starts_with(stream_url, "rtsp://") {
        let t = (String::from_str("rtsp_transport"), config.rtsp_transport.clone());
        let ghost tv = (t.0@, t.1@);
        opts.push(t);
        assert(pair_views(opts@) =~= seq![av, pv, tv]);
        assert(seq![av, pv] + seq![tv] =~= seq![av, pv, tv]);
    } else {
        assert(seq![av, pv] + Seq::<(Seq<char>, Seq<char>)>::empty() =~= seq![av, pv]);
    }
    opts
}

/// The options follow the configuration: the probing limits come first and
/// carry the configured numbers in decimal, an `rtsp://` URL also gets the
/// configured transport, and any other URL gets nothing more.
pub proof fn law_input_options_follow_config(c: ConfigView, url: Seq<char>)
    ensures
        input_options_spec(c, url).len() >= 2,
        input_options_spec(c, url)[0] == ("analyzeduration"@, decimal_text(
            c.ffmpeg_analyzeduration as nat,
        )),
        input_options_spec(c, url)[1] == ("probesize"@, decimal_text(c.ffmpeg_probesize as nat)),
        starts_with_spec(url, "rtsp://"@) ==> input_options_spec(c, url).contains(
            ("rtsp_transport"@, c.rtsp_transport),
        ),
        starts_with_spec(url, "rtsp://"@) ==> input_options_spec(c, url).len() == 3,
        !starts_with_spec(url, "rtsp://"@) ==> input_options_spec(c, url).len() == 2,
{
    if starts_with_spec(url, "rtsp://"@) {
        assert(input_options_spec(c, url)[2] == ("rtsp_transport"@, c.rtsp_transport));
    }
}

/// File name of segment `index` of a stream, recorded at time `stamp`
/// (`YYYYMMDD_HHMMSS`).
pub open spec fn segment_file_name(stream_id: Seq<char>, stamp: Seq<char>, index: u32) -> Seq<char> {
    "segment_"@ + stream_id + "_"@ + stamp + "_"@ + zero_padded_text(
        index as nat,
        SEGMENT_INDEX_WIDTH as nat,
    ) + ".mp4"@
}

/// Path of segment `index` of stream `stream_id`: its file name in the
/// stream's directory.
pub fn generate_segment_path(config: &Config, stream_id: &str, stamp: &str, index: u32) -> (p:
    String)
    ensures
        p@ == join_path_spec(
            stream_output_dir(config@, stream_id@),
            segment_file_name(stream_id@, stamp@, index),
        ),
{
    let mut name = String::from_str("segment_");
    name.append(stream_id);
    name.append("_");
    name.append(stamp);
    name.append("_");
    let number = zero_padded_string(index as u64, SEGMENT_INDEX_WIDTH);
    name.append(number.as_str());
    name.append(".mp4");
    let dir = config.get_stream_output_dir(stream_id);
    crate::path::join_path(dir.as_str(), name.as_str())
}

/// Path of segment `index` of stream `stream_id` recorded at time `now`
/// (`None` when `now` has no calendar text).
pub fn segment_path_at(config: &Config, stream_id: &str, now: UtcTime, index: u32) -> (p: Option<
    String,
>)
    ensures
        compact_stamp_of(now.secs, now.nanos) is None ==> p is None,
        compact_stamp_of(now.secs, now.nanos) matches Some(stamp) ==> (p matches Some(p) && p@
            == join_path_spec(
            stream_output_dir(config@, stream_id@),
            segment_file_name(stream_id@, stamp, index),
        )),
        forall|y: int, mo: int, d: int, h: int, mi: int, s: int|
            is_civil_time(y, mo, d, h, mi, s) && #[trigger] epoch_seconds(y, mo, d, h, mi, s)
                == now.secs && now.nanos < 1_000_000_000 ==> (p matches Some(p) && p@
                == join_path_spec(
                stream_output_dir(config@, stream_id@),
                segment_file_name(stream_id@, civil_stamp_text(y, mo, d, h, mi, s), index),
            )),
{
    match compact_stamp(now) {
        Some(stamp) => Some(generate_segment_path(config, stream_id, stamp.as_str(), index)),
        None => None,
    }
}

/// Advances the segment counter after a finished segment and tells whether
/// the disk is due for a check (every tenth segment).
pub fn finish_segment(index: u32) -> (r: (u32, bool))
    requires
        index < u32::MAX,
    ensures
        r.0 == index + 1,
        r.1 == ((index + 1) % (DISK_CHECK_EVERY as int) == 0),
{
    let next = index + 1;
    (next, next % DISK_CHECK_EVERY == 0)
}

/// Whether the current segment takes more packets: the session records and
/// the segment has lasted less than the segment duration.
pub fn keep_filling_segment(is_recording: bool, elapsed_secs: u64, segment_duration: u32) -> (b: bool)
    ensures
        b == (is_recording && elapsed_secs < segment_duration),
{
    is_recording && elapsed_secs < segment_duration as u64
}

/// Whether a session may connect to its stream: only when the disk has
/// room; otherwise it reports a full disk.
pub fn space_to_connect(has_space: bool) -> (r: Result<(), RecorderError>)
    ensures
        has_space ==> r is Ok,
        !has_space ==> r matches Err(RecorderError::DiskFull),
{
    if has_space {
        Ok(())
    } else {
        Err(RecorderError::DiskFull)
    }
}

/// What a session does after a periodic disk check.
#[derive(Debug, Clone, Copy, PartialEq, Eq, Structural)]
pub enum SpaceStep {
    /// Enough room: keep recording.
    Continue,
    /// Too little room: delete old files, then check again.
    CleanUp,
}

/// The decision after a periodic disk check: keep recording when the disk
/// has room; otherwise clean up once, and stop with a full disk when a
/// cleanup has already run and there is still no room.
pub fn space_step(has_space: bool, cleaned_up: bool) -> (r: Result<SpaceStep, RecorderError>)
    ensures
        has_space ==> r == Ok::<SpaceStep, RecorderError>(SpaceStep::Continue),
        !has_space && !cleaned_up ==> r == Ok::<SpaceStep, RecorderError>(SpaceStep::CleanUp),
        !has_space && cleaned_up ==> r matches Err(RecorderError::DiskFull),
{
    if has_space {
        Ok(SpaceStep::Continue)
    } else if !cleaned_up {
        Ok(SpaceStep::CleanUp)
    } else {
        Err(RecorderError::DiskFull)
    }
}

/// Message of a stream that cannot be opened.
pub open spec fn open_failed_message(url: Seq<char>, err: Seq<char>) -> Seq<char> {
    "Cannot connect to stream "@ + url + ": "@ + err
        + ". This may be due to codec parameter detection issues with HEVC/H.265 streams. Consider increasing FFMPEG_ANALYZEDURATION (>10000000\u{3bc}s) or FFMPEG_PROBESIZE (>10000000 bytes) environment variables."@
}

/// Message of a stream without video.
pub open spec fn no_video_message(url: Seq<char>) -> Seq<char> {
    "No video stream found in "@ + url
        + ". The stream may not contain video data or may be using an unsupported format."@
}

/// Message of a stream whose codec parameters cannot be read.
pub open spec fn codec_failed_message(url: Seq<char>, err: Seq<char>) -> Seq<char> {
    "Codec parameter detection failed for stream "@ + url + ": "@ + err
        + ". For HEVC/H.265 streams, try: FFMPEG_ANALYZEDURATION=20000000 FFMPEG_PROBESIZE=20000000"@
}

/// Message of a stream whose video decoder cannot be made.
pub open spec fn decoder_failed_message(url: Seq<char>, err: Seq<char>) -> Seq<char> {
    "Video decoder creation failed for "@ + url + ": "@ + err
        + ". The codec may not be supported or the stream parameters are invalid."@
}

/// Message of a stream whose picture size is unknown.
pub open spec fn dimensions_message(url: Seq<char>, width: u32, height: u32) -> Seq<char> {
    "Stream "@ + url + " has unspecified dimensions ("@ + decimal_text(width as nat) + "x"@
        + decimal_text(height as nat)
        + "). This is common with HEVC streams. Try: FFMPEG_ANALYZEDURATION=30000000 FFMPEG_PROBESIZE=30000000 RTSP_TRANSPORT=tcp"@
}

fn join2(a: &str, b: &str) -> (r: String)
    ensures
        r@ == a@ + b@,
{
    let mut r = String::from_str(a);
    r.append(b);
    r
}

fn join4(a: &str, b: &str, c: &str, d: &str) -> (r: String)
    ensures
        r@ == a@ + b@ + c@ + d@,
{
    let mut r = String::from_str(a);
    r.append(b);
    r.append(c);
    r.append(d);
    r
}

/// The error of a stream that cannot be opened; `err` is FFmpeg's message.
pub fn open_failed(url: &str, err: &str) -> (e: RecorderError)
    ensures
        e matches RecorderError::StreamConnection(m) && m@ == open_failed_message(url@, err@),
{
    let m = join4(
        "Cannot connect to stream ",
        url,
        ": ",
        err,
    );
    let m = join2(
        m.as_str(),
        ". This may be due to codec parameter detection issues with HEVC/H.265 streams. Consider increasing FFMPEG_ANALYZEDURATION (>10000000\u{3bc}s) or FFMPEG_PROBESIZE (>10000000 bytes) environment variables.",
    );
    RecorderError::StreamConnection(m)
}

/// The error of a stream without video.
pub fn no_video_stream(url: &str) -> (e: RecorderError)
    ensures
        e matches RecorderError::StreamConnection(m) && m@ == no_video_message(url@),
{
    let m = join2("No video stream found in ", url);
    let m = join2(
        m.as_str(),
        ". The stream may not contain video data or may be using an unsupported format.",
    );
    RecorderError::StreamConnection(m)
}

/// The error of a stream whose codec parameters cannot be read; `err` is
/// FFmpeg's message.
pub fn codec_failed(url: &str, err: &str) -> (e: RecorderError)
    ensures
        e matches RecorderError::StreamConnection(m) && m@ == codec_failed_message(url@, err@),
{
    let m = join4("Codec parameter detection failed for stream ", url, ": ", err);
    let m = join2(
        m.as_str(),
        ". For HEVC/H.265 streams, try: FFMPEG_ANALYZEDURATION=20000000 FFMPEG_PROBESIZE=20000000",
    );
    RecorderError::StreamConnection(m)
}

/// The error of a stream whose video decoder cannot be made; `err` is
/// FFmpeg's message.
pub fn decoder_failed(url: &str, err: &str) -> (e: RecorderError)
    ensures
        e matches RecorderError::StreamConnection(m) && m@ == decoder_failed_message(url@, err@),
{
    let m = join4("Video decoder creation failed for ", url, ": ", err);
    let m = join2(
        m.as_str(),
        ". The codec may not be supported or the stream parameters are invalid.",
    );
    RecorderError::StreamConnection(m)
}

/// Refuses a stream whose picture width or height is unknown (zero).
pub fn check_dimensions(url: &str, width: u32, height: u32) -> (r: Result<(), RecorderError>)
    ensures
        (width != 0 && height != 0) ==> r is Ok,
        (width == 0 || height == 0) ==> (r matches Err(RecorderError::StreamConnection(m)) && m@
            == dimensions_message(url@, width, height)),
{
    if width == 0 || height == 0 {
        let w = decimal_string(width as u64);
        let h = decimal_string(height as u64);
        let m = join4("Stream ", url, " has unspecified dimensions (", w.as_str());
        let m = join4(m.as_str(), "x", h.as_str(), "). This is common with HEVC streams. Try: FFMPEG_ANALYZEDURATION=30000000 FFMPEG_PROBESIZE=30000000 RTSP_TRANSPORT=tcp");
        Err(RecorderError::StreamConnection(m))
    } else {
        Ok(())
    }
}

} // verus!
