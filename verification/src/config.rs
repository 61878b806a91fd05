//! Recorder configuration: defaults, overrides from the process environment,
//! the single-stream legacy form, and per-stream output directories.

use vstd::prelude::*;
use vstd::string::{StrSliceExecFns, StringExecFns};
use crate::text::{
    decimal_text, law_decimal_round_trip,
    lowercase_of, parse_unsigned, parse_unsigned_spec, same_text, split_on, split_spec, to_lowercase,
    to_uppercase, trim, trim_spec, uppercase_of,
};
use crate::path::{join_path, join_path_spec};

verus! {

/// One camera stream.
#[derive(Debug)]
pub struct StreamConfig {
    pub id: String,
    pub url: String,
    pub enabled: bool,
    /// Subdirectory of the output directory for this stream's files
    /// (the stream id when absent).
    pub output_subdir: Option<String>,
}

pub struct StreamConfigView {
    pub id: Seq<char>,
    pub url: Seq<char>,
    pub enabled: bool,
    pub output_subdir: Option<Seq<char>>,
}

impl View for StreamConfig {
    type V = StreamConfigView;

    open spec fn view(&self) -> StreamConfigView {
        StreamConfigView {
            id: self.id@,
            url: self.url@,
            enabled: self.enabled,
            output_subdir: self.output_subdir.deep_view(),
        }
    }
}

pub(crate) fn copy_text_option(o: &Option<String>) -> (r: Option<String>)
    ensures
        r.deep_view() == o.deep_view(),
{
    match o {
        Some(s) => Some(s.clone()),
        None => None,
    }
}

impl Clone for StreamConfig {
    fn clone(&self) -> (r: Self)
        ensures
            r@ == self@,
    {
        StreamConfig {
            id: self.id.clone(),
            url: self.url.clone(),
            enabled: self.enabled,
            output_subdir: copy_text_option(&self.output_subdir),
        }
    }
}

/// Settings of the whole recorder.
///
/// The disk usage threshold is a floating-point percentage; it is held here
/// by the bit pattern of its `f64` value (`f64::to_bits`), which this crate
/// only carries.
#[derive(Debug)]
pub struct Config {
    /// Single stream of the legacy form.
    pub stream_url: Option<String>,
    pub streams: Vec<StreamConfig>,
    pub output_dir: String,
    /// Seconds per segment file.
    pub segment_duration: u32,
    pub max_disk_usage_percent_bits: u64,
    /// Seconds between two disk checks.
    pub cleanup_check_interval: u64,
    pub server_port: u16,
    pub server_host: String,
    pub auto_start: bool,
    /// Retries of a failing stream; 0 retries without end.
    pub max_retries: u32,
    /// Longest wait between two attempts, in seconds.
    pub retry_delay: u64,
    /// FFmpeg `analyzeduration`, in microseconds.
    pub ffmpeg_analyzeduration: u64,
    /// FFmpeg `probesize`, in bytes.
    pub ffmpeg_probesize: u64,
    /// `tcp` or `udp`.
    pub rtsp_transport: String,
}

pub struct ConfigView {
    pub stream_url: Option<Seq<char>>,
    pub streams: Seq<StreamConfigView>,
    pub output_dir: Seq<char>,
    pub segment_duration: u32,
    pub max_disk_usage_percent_bits: u64,
    pub cleanup_check_interval: u64,
    pub server_port: u16,
    pub server_host: Seq<char>,
    pub auto_start: bool,
    pub max_retries: u32,
    pub retry_delay: u64,
    pub ffmpeg_analyzeduration: u64,
    pub ffmpeg_probesize: u64,
    pub rtsp_transport: Seq<char>,
}

pub open spec fn stream_views(s: Seq<StreamConfig>) -> Seq<StreamConfigView> {
    s.map_values(|x: StreamConfig| x@)
}

impl View for Config {
    type V = ConfigView;

    open spec fn view(&self) -> ConfigView {
        ConfigView {
            stream_url: self.stream_url.deep_view(),
            streams: stream_views(self.streams@),
            output_dir: self.output_dir@,
            segment_duration: self.segment_duration,
            max_disk_usage_percent_bits: self.max_disk_usage_percent_bits,
            cleanup_check_interval: self.cleanup_check_interval,
            server_port: self.server_port,
            server_host: self.server_host@,
            auto_start: self.auto_start,
            max_retries: self.max_retries,
            retry_delay: self.retry_delay,
            ffmpeg_analyzeduration: self.ffmpeg_analyzeduration,
            ffmpeg_probesize: self.ffmpeg_probesize,
            rtsp_transport: self.rtsp_transport@,
        }
    }
}

pub(crate) fn copy_streams(v: &Vec<StreamConfig>) -> (r: Vec<StreamConfig>)
    ensures
        stream_views(r@) == stream_views(v@),
{
    let mut r: Vec<StreamConfig> = Vec::new();
    let mut i: usize = 0;
    while i < v.len()
        invariant
            i <= v.len(),
            stream_views(r@) == stream_views(v@).take(i as int),
        decreases v.len() - i,
    {
        let c = v[i].clone();
        assert(c@ == v@[i as int]@);
        let ghost before = stream_views(r@);
        r.push(c);
        assert(stream_views(r@) =~= before.push(c@));
        assert(stream_views(v@).take(i + 1) =~= stream_views(v@).take(i as int).push(c@));
        i = i + 1;
        assert(stream_views(r@) =~= stream_views(v@).take(i as int));
    }
    assert(stream_views(v@).take(i as int) =~= stream_views(v@));
    r
}

impl Clone for Config {
    fn clone(&self) -> (r: Self)
        ensures
            r@ == self@,
    {
        Config {
            stream_url: copy_text_option(&self.stream_url),
            streams: copy_streams(&self.streams),
            output_dir: self.output_dir.clone(),
            segment_duration: self.segment_duration,
            max_disk_usage_percent_bits: self.max_disk_usage_percent_bits,
            cleanup_check_interval: self.cleanup_check_interval,
            server_port: self.server_port,
            server_host: self.server_host.clone(),
            auto_start: self.auto_start,
            max_retries: self.max_retries,
            retry_delay: self.retry_delay,
            ffmpeg_analyzeduration: self.ffmpeg_analyzeduration,
            ffmpeg_probesize: self.ffmpeg_probesize,
            rtsp_transport: self.rtsp_transport.clone(),
        }
    }
}

/// Bit pattern of the `f64` value 90.0, the default disk usage threshold.
pub const DEFAULT_MAX_DISK_USAGE_PERCENT_BITS: u64 = 0x4056800000000000;

/// The settings used when nothing else is configured.
pub open spec fn default_config() -> ConfigView {
    ConfigView {
        stream_url: None,
        streams: seq![],
        output_dir: "./recordings"@,
        segment_duration: 10,
        max_disk_usage_percent_bits: DEFAULT_MAX_DISK_USAGE_PERCENT_BITS,
        cleanup_check_interval: 60,
        server_port: 8080,
        server_host: "0.0.0.0"@,
        auto_start: true,
        max_retries: 0,
        retry_delay: 5,
        ffmpeg_analyzeduration: 10_000_000,
        ffmpeg_probesize: 10_000_000,
        rtsp_transport: "tcp"@,
    }
}

impl Default for Config {
    fn default() -> (c: Self)
        ensures
            c@ == default_config(),
    {
        let c = Config {
            stream_url: None,
            streams: Vec::new(),
            output_dir: String::from_str("./recordings"),
            segment_duration: 10,
            max_disk_usage_percent_bits: DEFAULT_MAX_DISK_USAGE_PERCENT_BITS,
            cleanup_check_interval: 60,
            server_port: 8080,
            server_host: String::from_str("0.0.0.0"),
            auto_start: true,
            max_retries: 0,
            retry_delay: 5,
            ffmpeg_analyzeduration: 10_000_000,
            ffmpeg_probesize: 10_000_000,
            rtsp_transport: String::from_str("tcp"),
        };
        assert(c@.streams =~= seq![]);
        c
    }
}

// ---------------------------------------------------------------------------
// Streams and their directories

/// The enabled streams, in configuration order.
pub open spec fn enabled_streams(s: Seq<StreamConfigView>) -> Seq<StreamConfigView> {
    s.filter(|x: StreamConfigView| x.enabled)
}

/// The first stream whose id is `id`.
pub open spec fn find_stream(s: Seq<StreamConfigView>, id: Seq<char>) -> Option<StreamConfigView>
    decreases s.len(),
{
    if s.len() == 0 {
        None
    } else if s[0].id == id {
        Some(s[0])
    } else {
        find_stream(s.drop_first(), id)
    }
}

/// Directory of a stream's files: the output directory joined with the
/// stream's subdirectory, or with the id itself when the stream is unknown or
/// has no subdirectory.
pub open spec fn stream_output_dir(c: ConfigView, id: Seq<char>) -> Seq<char> {
    match find_stream(c.streams, id) {
        Some(st) => match st.output_subdir {
            Some(sub) => join_path_spec(c.output_dir, sub),
            None => join_path_spec(c.output_dir, id),
        },
        None => join_path_spec(c.output_dir, id),
    }
}

/// The legacy single-stream form made consistent with the stream list: a
/// lone `stream_url` becomes an enabled stream named `default`, and a missing
/// `stream_url` is taken from the first enabled stream.
pub open spec fn migrate_spec(c: ConfigView) -> ConfigView {
    let c1 = match c.stream_url {
        Some(url) => if c.streams.len() == 0 {
            ConfigView {
                streams: seq![
                    StreamConfigView { id: "default"@, url: url, enabled: true, output_subdir: None },
                ],
                ..c
            }
        } else {
            c
        },
        None => c,
    };
    if c1.stream_url is None && c1.streams.len() > 0 && enabled_streams(c1.streams).len() > 0 {
        ConfigView { stream_url: Some(enabled_streams(c1.streams)[0].url), ..c1 }
    } else {
        c1
    }
}

/// The directories that loading creates: the output directory, then the
/// directory of each enabled stream.
pub open spec fn directories_spec(c: ConfigView) -> Seq<Seq<char>> {
    seq![c.output_dir] + enabled_streams(c.streams).map_values(
        |s: StreamConfigView| stream_output_dir(c, s.id),
    )
}

// ---------------------------------------------------------------------------
// The process environment

/// A snapshot of the process environment: names and values, in the order the
/// operating system lists them.
#[derive(Debug, Clone)]
pub struct Environment {
    pub vars: Vec<(String, String)>,
}

impl View for Environment {
    type V = Seq<(Seq<char>, Seq<char>)>;

    open spec fn view(&self) -> Seq<(Seq<char>, Seq<char>)> {
        self.vars@.map_values(|p: (String, String)| (p.0@, p.1@))
    }
}

/// Value of the first variable named `key` (as `std::env::var` reads it).
pub open spec fn env_lookup(env: Seq<(Seq<char>, Seq<char>)>, key: Seq<char>) -> Option<Seq<char>>
    decreases env.len(),
{
    if env.len() == 0 {
        None
    } else if env[0].0 == key {
        Some(env[0].1)
    } else {
        env_lookup(env.drop_first(), key)
    }
}

/// A number read from variable `key`; `current` when it is unset or not a
/// number no larger than `max`.
pub open spec fn number_override(
    env: Seq<(Seq<char>, Seq<char>)>,
    key: Seq<char>,
    current: nat,
    max: nat,
) -> nat {
    match env_lookup(env, key) {
        Some(v) => match parse_unsigned_spec(v, max) {
            Some(n) => n,
            None => current,
        },
        None => current,
    }
}

/// A text read from variable `key`; `current` when it is unset.
pub open spec fn text_override(
    env: Seq<(Seq<char>, Seq<char>)>,
    key: Seq<char>,
    current: Seq<char>,
) -> Seq<char> {
    match env_lookup(env, key) {
        Some(v) => v,
        None => current,
    }
}

/// A switch read from variable `key`: on exactly when its value is `true` in
/// any letter case; `current` when it is unset.
pub open spec fn flag_override(env: Seq<(Seq<char>, Seq<char>)>, key: Seq<char>, current: bool) -> bool {
    match env_lookup(env, key) {
        Some(v) => lowercase_of(v) == "true"@,
        None => current,
    }
}

/// The RTSP transport: `tcp` or `udp` from `RTSP_TRANSPORT`, else `current`.
pub open spec fn transport_override(env: Seq<(Seq<char>, Seq<char>)>, current: Seq<char>) -> Seq<char> {
    match env_lookup(env, "RTSP_TRANSPORT"@) {
        Some(v) => if v == "tcp"@ || v == "udp"@ {
            v
        } else {
            current
        },
        None => current,
    }
}

/// The stream that one comma-separated entry of `STREAM_IDS` describes: the
/// trimmed id names variables `STREAM_URL_<ID>` (required),
/// `STREAM_ENABLED_<ID>` (default on) and `STREAM_SUBDIR_<ID>`, where `<ID>`
/// is the id in upper case.
pub open spec fn stream_from_env(env: Seq<(Seq<char>, Seq<char>)>, piece: Seq<char>) -> Option<
    StreamConfigView,
> {
    let id = trim_spec(piece);
    let upper = uppercase_of(id);
    if id.len() == 0 {
        None
    } else {
        match env_lookup(env, "STREAM_URL_"@ + upper) {
            None => None,
            Some(url) => Some(
                StreamConfigView {
                    id: id,
                    url: url,
                    enabled: flag_override(env, "STREAM_ENABLED_"@ + upper, true),
                    output_subdir: env_lookup(env, "STREAM_SUBDIR_"@ + upper),
                },
            ),
        }
    }
}

/// The streams that a list of `STREAM_IDS` entries describes, in order.
pub open spec fn streams_from_pieces(
    env: Seq<(Seq<char>, Seq<char>)>,
    pieces: Seq<Seq<char>>,
) -> Seq<StreamConfigView>
    decreases pieces.len(),
{
    if pieces.len() == 0 {
        seq![]
    } else {
        let rest = streams_from_pieces(env, pieces.drop_last());
        match stream_from_env(env, pieces.last()) {
            Some(s) => rest.push(s),
            None => rest,
        }
    }
}

/// The stream list after the environment: the streams that `STREAM_IDS`
/// describes, when it is set and describes at least one.
pub open spec fn streams_override(
    env: Seq<(Seq<char>, Seq<char>)>,
    current: Seq<StreamConfigView>,
) -> Seq<StreamConfigView> {
    match env_lookup(env, "STREAM_IDS"@) {
        Some(ids) => {
            let new = streams_from_pieces(env, split_spec(ids, ','));
            if new.len() > 0 {
                new
            } else {
                current
            }
        },
        None => current,
    }
}

/// The settings after the environment has overridden them. The disk usage
/// threshold is parsed by the caller (`usage_override`).
pub open spec fn apply_env_spec(
    c: ConfigView,
    env: Seq<(Seq<char>, Seq<char>)>,
    usage_override: Option<u64>,
) -> ConfigView {
    ConfigView {
        stream_url: match env_lookup(env, "STREAM_URL"@) {
            Some(v) => Some(v),
            None => c.stream_url,
        },
        streams: streams_override(env, c.streams),
        output_dir: text_override(env, "OUTPUT_DIR"@, c.output_dir),
        segment_duration: number_override(
            env,
            "SEGMENT_DURATION"@,
            c.segment_duration as nat,
            u32::MAX as nat,
        ) as u32,
        max_disk_usage_percent_bits: match usage_override {
            Some(b) => b,
            None => c.max_disk_usage_percent_bits,
        },
        cleanup_check_interval: number_override(
            env,
            "CLEANUP_CHECK_INTERVAL"@,
            c.cleanup_check_interval as nat,
            u64::MAX as nat,
        ) as u64,
        server_port: number_override(env, "PORT"@, c.server_port as nat, u16::MAX as nat) as u16,
        server_host: text_override(env, "HOST"@, c.server_host),
        auto_start: flag_override(env, "AUTO_START"@, c.auto_start),
        max_retries: number_override(
            env,
            "MAX_RETRIES"@,
            c.max_retries as nat,
            u32::MAX as nat,
        ) as u32,
        retry_delay: number_override(env, "RETRY_DELAY"@, c.retry_delay as nat, u64::MAX as nat) as u64,
        ffmpeg_analyzeduration: number_override(
            env,
            "FFMPEG_ANALYZEDURATION"@,
            c.ffmpeg_analyzeduration as nat,
            u64::MAX as nat,
        ) as u64,
        ffmpeg_probesize: number_override(
            env,
            "FFMPEG_PROBESIZE"@,
            c.ffmpeg_probesize as nat,
            u64::MAX as nat,
        ) as u64,
        rtsp_transport: transport_override(env, c.rtsp_transport),
    }
}

impl Environment {
    /// Value of the first variable named `key`.
    pub fn lookup<'a>(&'a self, key: &str) -> (r: Option<&'a String>)
        ensures
            r is None ==> env_lookup(self@, key@) is None,
            r matches Some(v) ==> env_lookup(self@, key@) == Some(v@),
    {
        let mut i: usize = 0;
        assert(self@.skip(0) =~= self@);
        while i < self.vars.len()
            invariant
                i <= self.vars@.len(),
                env_lookup(self@.skip(i as int), key@) == env_lookup(self@, key@),
            decreases self.vars@.len() - i,
        {
            let ghost rest = self@.skip(i as int);
            assert(rest[0] == (self.vars@[i as int].0@, self.vars@[i as int].1@));
            if same_text(self.vars[i].0.as_str(), key) {
                return Some(&self.vars[i].1);
            }
            assert(rest.drop_first() =~= self@.skip(i + 1));
            i = i + 1;
        }
        assert(self@.skip(i as int).len() == 0);
        None
    }

    fn number_or(&self, key: &str, current: u64, max: u64) -> (r: u64)
        requires
            current <= max,
        ensures
            r as nat == number_override(self@, key@, current as nat, max as nat),
            r <= max,
    {
        match self.lookup(key) {
            Some(v) => match parse_unsigned(v.as_str(), max) {
                Some(n) => n,
                None => current,
            },
            None => current,
        }
    }

    fn flag_or(&self, key: &str, current: bool) -> (r: bool)
        ensures
            r == flag_override(self@, key@, current),
    {
        match self.lookup(key) {
            Some(v) => {
                let lower = to_lowercase(v.as_str());
                same_text(lower.as_str(), "true")
            },
            None => current,
        }
    }

    fn text_or(&self, key: &str, current: &String) -> (r: String)
        ensures
            r@ == text_override(self@, key@, current@),
    {
        match self.lookup(key) {
            Some(v) => v.clone(),
            None => current.clone(),
        }
    }
}

fn prefixed(prefix: &str, rest: &str) -> (r: String)
    ensures
        r@ == prefix@ + rest@,
{
    let mut r = String::from_str(prefix);
    r.append(rest);
    r
}

/// The stream that one entry of `STREAM_IDS` describes (see `stream_from_env`).
pub fn stream_from_piece(env: &Environment, piece: &str) -> (r: Option<StreamConfig>)
    ensures
        r is None ==> stream_from_env(env@, piece@) is None,
        r matches Some(s) ==> stream_from_env(env@, piece@) == Some(s@),
{
    let id = trim(piece);
    if id.unicode_len() == 0 {
        return None;
    }
    let upper = to_uppercase(id);
    let url_var = prefixed("STREAM_URL_", upper.as_str());
    match env.lookup(url_var.as_str()) {
        None => None,
        Some(url) => {
            let enabled_var = prefixed("STREAM_ENABLED_", upper.as_str());
            let subdir_var = prefixed("STREAM_SUBDIR_", upper.as_str());
            let enabled = env.flag_or(enabled_var.as_str(), true);
            let output_subdir = match env.lookup(subdir_var.as_str()) {
                Some(s) => Some(s.clone()),
                None => None,
            };
            Some(StreamConfig { id: String::from_str(id), url: url.clone(), enabled, output_subdir })
        },
    }
}

/// The streams that the value of `STREAM_IDS` describes (see `streams_from_pieces`).
pub fn streams_from_ids(env: &Environment, ids: &str) -> (r: Vec<StreamConfig>)
    ensures
        stream_views(r@) == streams_from_pieces(env@, split_spec(ids@, ',')),
{
    let pieces = split_on(ids, ',');
    let ghost pv = pieces@.map_values(|p: &str| p@);
    let mut r: Vec<StreamConfig> = Vec::new();
    let mut i: usize = 0;
    while i < pieces.len()
        invariant
            i <= pieces@.len(),
            pv == pieces@.map_values(|p: &str| p@),
            pv == split_spec(ids@, ','),
            stream_views(r@) == streams_from_pieces(env@, pv.take(i as int)),
        decreases pieces@.len() - i,
    {
        let found = stream_from_piece(env, pieces[i]);
        let ghost before = stream_views(r@);
        assert(pv.take(i + 1).drop_last() =~= pv.take(i as int));
        assert(pv.take(i + 1).last() == pieces@[i as int]@);
        match found {
            Some(s) => {
                r.push(s);
                assert(stream_views(r@) =~= before.push(s@));
            },
            None => {},
        }
        i = i + 1;
    }
    assert(pv.take(i as int) =~= pv);
    r
}

impl Config {
    /// Directory of a stream's files (see `stream_output_dir`).
    pub fn get_stream_output_dir(&self, stream_id: &str) -> (r: String)
        ensures
            r@ == stream_output_dir(self@, stream_id@),
    {
        let mut i: usize = 0;
        assert(self@.streams.skip(0) =~= self@.streams);
        while i < self.streams.len()
            invariant
                i <= self.streams@.len(),
                find_stream(self@.streams.skip(i as int), stream_id@) == find_stream(
                    self@.streams,
                    stream_id@,
                ),
            decreases self.streams@.len() - i,
        {
            let ghost rest = self@.streams.skip(i as int);
            assert(rest[0] == self.streams@[i as int]@);
            if same_text(self.streams[i].id.as_str(), stream_id) {
                match &self.streams[i].output_subdir {
                    Some(sub) => {
                        return join_path(self.output_dir.as_str(), sub.as_str());
                    },
                    None => {},
                }
                return join_path(self.output_dir.as_str(), stream_id);
            }
            assert(rest.drop_first() =~= self@.streams.skip(i + 1));
            i = i + 1;
        }
        assert(self@.streams.skip(i as int).len() == 0);
        join_path(self.output_dir.as_str(), stream_id)
    }

    /// The enabled streams, in configuration order.
    pub fn get_enabled_streams(&self) -> (r: Vec<&StreamConfig>)
        ensures
            r@.map_values(|s: &StreamConfig| s@) == enabled_streams(self@.streams),
    {
        let mut r: Vec<&StreamConfig> = Vec::new();
        let mut i: usize = 0;
        while i < self.streams.len()
            invariant
                i <= self.streams@.len(),
                r@.map_values(|s: &StreamConfig| s@) == enabled_streams(
                    self@.streams.take(i as int),
                ),
            decreases self.streams@.len() - i,
        {
            let ghost before = r@.map_values(|s: &StreamConfig| s@);
            proof {
                reveal_with_fuel(Seq::filter, 1);
                assert(self@.streams.take(i + 1).drop_last() =~= self@.streams.take(i as int));
                assert(self@.streams.take(i + 1).last() == self.streams@[i as int]@);
            }
            if self.streams[i].enabled {
                r.push(&self.streams[i]);
                assert(r@.map_values(|s: &StreamConfig| s@) =~= before.push(self.streams@[i as int]@));
            }
            i = i + 1;
        }
        assert(self@.streams.take(i as int) =~= self@.streams);
        r
    }

    /// Makes the legacy single-stream form and the stream list agree (see `migrate_spec`).
    pub fn migrate_legacy_config(&mut self)
        ensures
            final(self)@ == migrate_spec(old(self)@),
    {
        match &self.stream_url {
            Some(url) => {
                if self.streams.len() == 0 {
                    let s = StreamConfig {
                        id: String::from_str("default"),
                        url: url.clone(),
                        enabled: true,
                        output_subdir: None,
                    };
                    self.streams.push(s);
                    assert(self@.streams =~= seq![s@]);
                }
            },
            None => {},
        }
        if self.stream_url.is_none() && self.streams.len() > 0 {
            let enabled = self.get_enabled_streams();
            if enabled.len() > 0 {
                let first_url = enabled[0].url.clone();
                proof {
                    assert(enabled@.map_values(|s: &StreamConfig| s@)[0] == enabled@[0]@);
                }
                self.stream_url = Some(first_url);
            }
        }
    }

    /// Applies the environment's overrides (see `apply_env_spec`); the caller
    /// hands over the threshold that `MAX_DISK_USAGE_PERCENT` sets, if any.
    pub fn load_from_env(&mut self, env: &Environment, usage_override: Option<u64>)
        ensures
            final(self)@ == apply_env_spec(old(self)@, env@, usage_override),
    {
        match env.lookup("STREAM_URL") {
            Some(v) => {
                self.stream_url = Some(v.clone());
            },
            None => {},
        }
        self.load_streams_from_env(env);
        self.output_dir = env.text_or("OUTPUT_DIR", &self.output_dir);
        let seg = env.number_or("SEGMENT_DURATION", self.segment_duration as u64, u32::MAX as u64);
        self.segment_duration = seg as u32;
        match usage_override {
            Some(b) => {
                self.max_disk_usage_percent_bits = b;
            },
            None => {},
        }
        self.cleanup_check_interval = env.number_or(
            "CLEANUP_CHECK_INTERVAL",
            self.cleanup_check_interval,
            u64::MAX,
        );
        let port = env.number_or("PORT", self.server_port as u64, u16::MAX as u64);
        self.server_port = port as u16;
        self.server_host = env.text_or("HOST", &self.server_host);
        self.auto_start = env.flag_or("AUTO_START", self.auto_start);
        let retries = env.number_or("MAX_RETRIES", self.max_retries as u64, u32::MAX as u64);
        self.max_retries = retries as u32;
        self.retry_delay = env.number_or("RETRY_DELAY", self.retry_delay, u64::MAX);
        self.ffmpeg_analyzeduration = env.number_or(
            "FFMPEG_ANALYZEDURATION",
            self.ffmpeg_analyzeduration,
            u64::MAX,
        );
        self.ffmpeg_probesize = env.number_or("FFMPEG_PROBESIZE", self.ffmpeg_probesize, u64::MAX);
        match env.lookup("RTSP_TRANSPORT") {
            Some(v) => {
                if same_text(v.as_str(), "tcp") || same_text(v.as_str(), "udp") {
                    self.rtsp_transport = v.clone();
                }
            },
            None => {},
        }
    }

    /// Replaces the stream list by the streams that `STREAM_IDS` describes
    /// (see `streams_override`).
    pub fn load_streams_from_env(&mut self, env: &Environment)
        ensures
            final(self)@ == (ConfigView {
                streams: streams_override(env@, old(self)@.streams),
                ..old(self)@
            }),
    {
        match env.lookup("STREAM_IDS") {
            Some(ids) => {
                let new_streams = streams_from_ids(env, ids.as_str());
                if new_streams.len() > 0 {
                    self.streams = new_streams;
                }
            },
            None => {},
        }
    }

    /// The settings once loading has applied the environment and the legacy
    /// form, in that order.
    pub fn finish_load(&mut self, env: &Environment, usage_override: Option<u64>)
        ensures
            final(self)@ == migrate_spec(apply_env_spec(old(self)@, env@, usage_override)),
    {
        self.load_from_env(env, usage_override);
        self.migrate_legacy_config();
    }

    /// The directories that loading creates (see `directories_spec`).
    pub fn directories_to_create(&self) -> (r: Vec<String>)
        ensures
            r@.map_values(|s: String| s@) == directories_spec(self@),
    {
        let mut r: Vec<String> = Vec::new();
        r.push(self.output_dir.clone());
        let enabled = self.get_enabled_streams();
        let ghost ev = enabled@.map_values(|s: &StreamConfig| s@);
        let ghost dirs = ev.map_values(|s: StreamConfigView| stream_output_dir(self@, s.id));
        let mut i: usize = 0;
        while i < enabled.len()
            invariant
                i <= enabled@.len(),
                ev == enabled@.map_values(|s: &StreamConfig| s@),
                dirs == ev.map_values(|s: StreamConfigView| stream_output_dir(self@, s.id)),
                r@.map_values(|s: String| s@) == seq![self@.output_dir] + dirs.take(i as int),
            decreases enabled@.len() - i,
        {
            let d = self.get_stream_output_dir(enabled[i].id.as_str());
            let ghost before = r@.map_values(|s: String| s@);
            r.push(d);
            assert(r@.map_values(|s: String| s@) =~= before.push(d@));
            assert(dirs.take(i + 1) =~= dirs.take(i as int).push(dirs[i as int]));
            i = i + 1;
        }
        assert(dirs.take(i as int) =~= dirs);
        r
    }
}

/// Making the legacy form consistent a second time changes nothing.
pub proof fn law_migrate_idempotent(c: ConfigView)
    ensures
        migrate_spec(migrate_spec(c)) == migrate_spec(c),
{
    reveal_with_fuel(Seq::filter, 2);
}

/// After migration a legacy URL always comes with a stream, and a
/// configuration with an enabled stream always has a legacy URL; a lone legacy
/// URL becomes exactly one enabled stream named `default`.
pub proof fn law_migrate_consistent(c: ConfigView)
    ensures
        migrate_spec(c).stream_url is Some ==> migrate_spec(c).streams.len() > 0,
        enabled_streams(migrate_spec(c).streams).len() > 0 ==> migrate_spec(c).stream_url is Some,
        (c.stream_url is Some && c.streams.len() == 0) ==> migrate_spec(c).streams == seq![
            StreamConfigView {
                id: "default"@,
                url: c.stream_url->0,
                enabled: true,
                output_subdir: None,
            },
        ],
        c.streams.len() > 0 ==> migrate_spec(c).streams == c.streams,
{
    reveal_with_fuel(Seq::filter, 2);
    if migrate_spec(c).streams.len() == 0 {
        assert(enabled_streams(migrate_spec(c).streams).len() == 0);
    }
}

/// An environment that sets none of the recorder's variables, and no
/// threshold, leaves the settings as they are.
pub proof fn law_empty_environment_changes_nothing(c: ConfigView)
    ensures
        apply_env_spec(c, Seq::empty(), None) == c,
{
    assert(apply_env_spec(c, Seq::empty(), None) =~= c);
}

/// Ties each number of the settings to the variable that sets it: when
/// the variable holds the decimal text of a number that fits the field, the
/// field takes that number, whatever else the environment holds.
pub proof fn law_env_numbers(c: ConfigView, env: Seq<(Seq<char>, Seq<char>)>, u: Option<u64>)
    ensures
        forall|n: nat|
            n <= u32::MAX && env_lookup(env, "SEGMENT_DURATION"@) == Some(#[trigger] decimal_text(n)) ==> apply_env_spec(
                c,
                env,
                u,
            ).segment_duration == n,
        forall|n: nat|
            n <= u64::MAX && env_lookup(env, "CLEANUP_CHECK_INTERVAL"@) == Some(#[trigger] decimal_text(n)) ==> apply_env_spec(
                c,
                env,
                u,
            ).cleanup_check_interval == n,
        forall|n: nat|
            n <= u16::MAX && env_lookup(env, "PORT"@) == Some(#[trigger] decimal_text(n)) ==> apply_env_spec(
                c,
                env,
                u,
            ).server_port == n,
        forall|n: nat|
            n <= u32::MAX && env_lookup(env, "MAX_RETRIES"@) == Some(#[trigger] decimal_text(n)) ==> apply_env_spec(
                c,
                env,
                u,
            ).max_retries == n,
        forall|n: nat|
            n <= u64::MAX && env_lookup(env, "RETRY_DELAY"@) == Some(#[trigger] decimal_text(n)) ==> apply_env_spec(
                c,
                env,
                u,
            ).retry_delay == n,
        forall|n: nat|
            n <= u64::MAX && env_lookup(env, "FFMPEG_ANALYZEDURATION"@) == Some(#[trigger] decimal_text(n)) ==> apply_env_spec(
                c,
                env,
                u,
            ).ffmpeg_analyzeduration == n,
        forall|n: nat|
            n <= u64::MAX && env_lookup(env, "FFMPEG_PROBESIZE"@) == Some(#[trigger] decimal_text(n)) ==> apply_env_spec(
                c,
                env,
                u,
            ).ffmpeg_probesize == n,
{
    assert forall|n: nat|
        n <= u32::MAX && env_lookup(env, "SEGMENT_DURATION"@) == Some(#[trigger] decimal_text(n)) implies apply_env_spec(
        c,
        env,
        u,
    ).segment_duration == n by {
        law_decimal_round_trip(n, u32::MAX as nat);
    }
    assert forall|n: nat|
        n <= u64::MAX && env_lookup(env, "CLEANUP_CHECK_INTERVAL"@) == Some(#[trigger] decimal_text(n)) implies apply_env_spec(
        c,
        env,
        u,
    ).cleanup_check_interval == n by {
        law_decimal_round_trip(n, u64::MAX as nat);
    }
    assert forall|n: nat|
        n <= u16::MAX && env_lookup(env, "PORT"@) == Some(#[trigger] decimal_text(n)) implies apply_env_spec(
        c,
        env,
        u,
    ).server_port == n by {
        law_decimal_round_trip(n, u16::MAX as nat);
    }
    assert forall|n: nat|
        n <= u32::MAX && env_lookup(env, "MAX_RETRIES"@) == Some(#[trigger] decimal_text(n)) implies apply_env_spec(
        c,
        env,
        u,
    ).max_retries == n by {
        law_decimal_round_trip(n, u32::MAX as nat);
    }
    assert forall|n: nat|
        n <= u64::MAX && env_lookup(env, "RETRY_DELAY"@) == Some(#[trigger] decimal_text(n)) implies apply_env_spec(
        c,
        env,
        u,
    ).retry_delay == n by {
        law_decimal_round_trip(n, u64::MAX as nat);
    }
    assert forall|n: nat|
        n <= u64::MAX && env_lookup(env, "FFMPEG_ANALYZEDURATION"@) == Some(#[trigger] decimal_text(n)) implies apply_env_spec(
        c,
        env,
        u,
    ).ffmpeg_analyzeduration == n by {
        law_decimal_round_trip(n, u64::MAX as nat);
    }
    assert forall|n: nat|
        n <= u64::MAX && env_lookup(env, "FFMPEG_PROBESIZE"@) == Some(#[trigger] decimal_text(n)) implies apply_env_spec(
        c,
        env,
        u,
    ).ffmpeg_probesize == n by {
        law_decimal_round_trip(n, u64::MAX as nat);
    }
}
/// Ties each text, switch and choice of the settings to the variable that
/// sets it: `STREAM_URL`, `OUTPUT_DIR` and `HOST` are taken as they are,
/// `AUTO_START` is on exactly when its value is `true` in any letter case,
/// `RTSP_TRANSPORT` is taken when it is `tcp` or `udp`, and a threshold
/// handed over replaces the configured one.
pub proof fn law_env_texts_and_switches(
    c: ConfigView,
    env: Seq<(Seq<char>, Seq<char>)>,
    u: Option<u64>,
    v: Seq<char>,
)
    ensures
        env_lookup(env, "STREAM_URL"@) == Some(v) ==> apply_env_spec(c, env, u).stream_url == Some(v),
        env_lookup(env, "OUTPUT_DIR"@) == Some(v) ==> apply_env_spec(c, env, u).output_dir == v,
        env_lookup(env, "HOST"@) == Some(v) ==> apply_env_spec(c, env, u).server_host == v,
        env_lookup(env, "AUTO_START"@) == Some(v) ==> apply_env_spec(c, env, u).auto_start == (
        lowercase_of(v) == "true"@),
        env_lookup(env, "RTSP_TRANSPORT"@) == Some(v) && (v == "tcp"@ || v == "udp"@) ==> apply_env_spec(
            c,
            env,
            u,
        ).rtsp_transport == v,
        env_lookup(env, "RTSP_TRANSPORT"@) == Some(v) && v != "tcp"@ && v != "udp"@ ==> apply_env_spec(
            c,
            env,
            u,
        ).rtsp_transport == c.rtsp_transport,
        u matches Some(b) ==> apply_env_spec(c, env, u).max_disk_usage_percent_bits == b,
        u is None ==> apply_env_spec(c, env, u).max_disk_usage_percent_bits
            == c.max_disk_usage_percent_bits,
        env_lookup(env, "STREAM_IDS"@) is None ==> apply_env_spec(c, env, u).streams == c.streams,
{
}

/// Every stream that `STREAM_IDS` entries describe takes its id from one of
/// the entries, trimmed, its URL from `STREAM_URL_<ID>`, its switch from
/// `STREAM_ENABLED_<ID>` (on when unset) and its subdirectory from
/// `STREAM_SUBDIR_<ID>`, where `<ID>` is the id in upper case.
pub proof fn law_streams_from_pieces(env: Seq<(Seq<char>, Seq<char>)>, pieces: Seq<Seq<char>>)
    ensures
        streams_from_pieces(env, pieces).len() <= pieces.len(),
        forall|k: int|
            0 <= k < streams_from_pieces(env, pieces).len() ==> {
                let s = #[trigger] streams_from_pieces(env, pieces)[k];
                &&& s.id.len() > 0
                &&& exists|j: int| 0 <= j < pieces.len() && trim_spec(#[trigger] pieces[j]) == s.id
                &&& env_lookup(env, "STREAM_URL_"@ + uppercase_of(s.id)) == Some(s.url)
                &&& s.enabled == flag_override(env, "STREAM_ENABLED_"@ + uppercase_of(s.id), true)
                &&& s.output_subdir == env_lookup(env, "STREAM_SUBDIR_"@ + uppercase_of(s.id))
            },
    decreases pieces.len(),
{
    if pieces.len() > 0 {
        let p = pieces.drop_last();
        law_streams_from_pieces(env, p);
        let rest = streams_from_pieces(env, p);
        let all = streams_from_pieces(env, pieces);
        assert forall|k: int| 0 <= k < all.len() implies {
            let s = #[trigger] all[k];
            &&& s.id.len() > 0
            &&& exists|j: int| 0 <= j < pieces.len() && trim_spec(#[trigger] pieces[j]) == s.id
            &&& env_lookup(env, "STREAM_URL_"@ + uppercase_of(s.id)) == Some(s.url)
            &&& s.enabled == flag_override(env, "STREAM_ENABLED_"@ + uppercase_of(s.id), true)
            &&& s.output_subdir == env_lookup(env, "STREAM_SUBDIR_"@ + uppercase_of(s.id))
        } by {
            if k < rest.len() {
                assert(all[k] == rest[k]);
                let j = choose|j: int| 0 <= j < p.len() && trim_spec(#[trigger] p[j]) == rest[k].id;
                assert(pieces[j] == p[j]);
            } else {
                assert(trim_spec(pieces[pieces.len() - 1]) == all[k].id);
            }
        }
    }
}

/// With `STREAM_IDS` set, the stream list is either the one configured
/// before, when the entries describe no stream, or the streams the entries
/// describe (see `law_streams_from_pieces`).
pub proof fn law_env_streams(c: ConfigView, env: Seq<(Seq<char>, Seq<char>)>, u: Option<u64>, list: Seq<char>)
    requires
        env_lookup(env, "STREAM_IDS"@) == Some(list),
    ensures
        streams_from_pieces(env, split_spec(list, ',')).len() == 0 ==> apply_env_spec(c, env, u).streams
            == c.streams,
        streams_from_pieces(env, split_spec(list, ',')).len() > 0 ==> apply_env_spec(c, env, u).streams
            == streams_from_pieces(env, split_spec(list, ',')),
{
}

} // verus!
