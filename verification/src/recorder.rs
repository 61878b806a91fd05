//! Recording state of every configured stream: which streams record, their
//! statistics, and the decisions that starting and stopping them take.

use vstd::prelude::*;
use vstd::string::StringExecFns;
use crate::config::{Config, ConfigView, StreamConfig, StreamConfigView, enabled_streams};
use crate::error::RecorderError;
use crate::text::same_text;
use crate::path::{extension, extension_spec};
use crate::retry::attempts_left;

verus! {

/// A point in time in UTC: seconds since the Unix epoch and nanoseconds.
#[derive(Debug, Clone, Copy, PartialEq, Eq, Structural)]
pub struct UtcTime {
    pub secs: i64,
    pub nanos: u32,
}

/// Statistics of one stream's recording.
#[derive(Debug)]
pub struct RecordingStats {
    pub started_at: Option<UtcTime>,
    pub files_recorded: u64,
    /// Seconds of video recorded.
    pub total_duration: u64,
    pub last_file: Option<String>,
}

pub struct RecordingStatsView {
    pub started_at: Option<UtcTime>,
    pub files_recorded: u64,
    pub total_duration: u64,
    pub last_file: Option<Seq<char>>,
}

impl View for RecordingStats {
    type V = RecordingStatsView;

    open spec fn view(&self) -> RecordingStatsView {
        RecordingStatsView {
            started_at: self.started_at,
            files_recorded: self.files_recorded,
            total_duration: self.total_duration,
            last_file: self.last_file.deep_view(),
        }
    }
}

/// Statistics before anything was recorded.
pub open spec fn empty_stats() -> RecordingStatsView {
    RecordingStatsView { started_at: None, files_recorded: 0, total_duration: 0, last_file: None }
}

/// Statistics once one more segment of `segment_duration` seconds was written to `path`.
pub open spec fn stats_after_segment(
    s: RecordingStatsView,
    path: Seq<char>,
    segment_duration: u32,
) -> RecordingStatsView {
    RecordingStatsView {
        files_recorded: (s.files_recorded + 1) as u64,
        total_duration: (s.total_duration + segment_duration) as u64,
        last_file: Some(path),
        ..s
    }
}

impl Clone for RecordingStats {
    fn clone(&self) -> (r: Self)
        ensures
            r@ == self@,
    {
        RecordingStats {
            started_at: self.started_at,
            files_recorded: self.files_recorded,
            total_duration: self.total_duration,
            last_file: crate::config::copy_text_option(&self.last_file),
        }
    }
}

impl RecordingStats {
    /// Statistics before anything was recorded.
    pub fn empty() -> (s: Self)
        ensures
            s@ == empty_stats(),
    {
        RecordingStats { started_at: None, files_recorded: 0, total_duration: 0, last_file: None }
    }

    /// Counts one more finished segment.
    pub fn record_segment(&mut self, path: String, segment_duration: u32)
        requires
            old(self).files_recorded < u64::MAX,
            old(self).total_duration + segment_duration <= u64::MAX,
        ensures
            final(self)@ == stats_after_segment(old(self)@, path@, segment_duration),
    {
        self.files_recorded = self.files_recorded + 1;
        self.total_duration = self.total_duration + segment_duration as u64;
        self.last_file = Some(path);
    }
}

/// A stream's statistics as reported to clients.
#[derive(Debug, Clone)]
pub struct StreamStats {
    pub stream_id: String,
    pub stream_url: String,
    pub is_recording: bool,
    pub stats: RecordingStats,
}

pub struct StreamStatsView {
    pub stream_id: Seq<char>,
    pub stream_url: Seq<char>,
    pub is_recording: bool,
    pub stats: RecordingStatsView,
}

impl View for StreamStats {
    type V = StreamStatsView;

    open spec fn view(&self) -> StreamStatsView {
        StreamStatsView {
            stream_id: self.stream_id@,
            stream_url: self.stream_url@,
            is_recording: self.is_recording,
            stats: self.stats@,
        }
    }
}

/// Statistics of all streams together.
#[derive(Debug, Clone)]
pub struct MultiStreamStats {
    pub streams: Vec<StreamStats>,
    pub total_files_recorded: u64,
    pub active_streams: u64,
}

/// Recording state of one stream.
#[derive(Debug)]
pub struct StreamRecorder {
    pub stream_id: String,
    pub stream_url: String,
    pub is_recording: bool,
    pub stats: RecordingStats,
    /// Files found on disk for this stream when the recorder started.
    pub files_recorded: u64,
}

pub struct StreamRecorderView {
    pub stream_id: Seq<char>,
    pub stream_url: Seq<char>,
    pub is_recording: bool,
    pub stats: RecordingStatsView,
    pub files_recorded: u64,
}

impl View for StreamRecorder {
    type V = StreamRecorderView;

    open spec fn view(&self) -> StreamRecorderView {
        StreamRecorderView {
            stream_id: self.stream_id@,
            stream_url: self.stream_url@,
            is_recording: self.is_recording,
            stats: self.stats@,
            files_recorded: self.files_recorded,
        }
    }
}

impl Clone for StreamRecorder {
    fn clone(&self) -> (r: Self)
        ensures
            r@ == self@,
    {
        StreamRecorder {
            stream_id: self.stream_id.clone(),
            stream_url: self.stream_url.clone(),
            is_recording: self.is_recording,
            stats: self.stats.clone(),
            files_recorded: self.files_recorded,
        }
    }
}

/// A stream that has not recorded yet.
pub open spec fn fresh_recorder(s: StreamConfigView) -> StreamRecorderView {
    StreamRecorderView {
        stream_id: s.id,
        stream_url: s.url,
        is_recording: false,
        stats: empty_stats(),
        files_recorded: 0,
    }
}

pub open spec fn with_recording(r: StreamRecorderView, b: bool) -> StreamRecorderView {
    StreamRecorderView { is_recording: b, ..r }
}

impl StreamRecorder {
    /// A recorder for a configured stream that has not recorded yet.
    pub fn new(stream_config: &StreamConfig) -> (r: Self)
        ensures
            r@ == fresh_recorder(stream_config@),
    {
        StreamRecorder {
            stream_id: stream_config.id.clone(),
            stream_url: stream_config.url.clone(),
            is_recording: false,
            stats: RecordingStats::empty(),
            files_recorded: 0,
        }
    }

    /// Marks the stream as recording; refused when it already records.
    pub fn start_recording(&mut self) -> (r: Result<(), RecorderError>)
        ensures
            old(self).is_recording ==> (r matches Err(RecorderError::AlreadyRecording) && final(self)@
                == old(self)@),
            !old(self).is_recording ==> r is Ok && final(self)@ == with_recording(old(self)@, true),
    {
        if self.is_recording {
            Err(RecorderError::AlreadyRecording)
        } else {
            self.is_recording = true;
            Ok(())
        }
    }

    /// Marks the stream as stopped; refused when it does not record.
    pub fn stop_recording(&mut self) -> (r: Result<(), RecorderError>)
        ensures
            !old(self).is_recording ==> (r matches Err(RecorderError::NotRecording) && final(self)@
                == old(self)@),
            old(self).is_recording ==> r is Ok && final(self)@ == with_recording(old(self)@, false),
    {
        if !self.is_recording {
            Err(RecorderError::NotRecording)
        } else {
            self.is_recording = false;
            Ok(())
        }
    }

    /// This stream's statistics as reported to clients.
    pub fn report(&self, stream_id: &str) -> (s: StreamStats)
        ensures
            s@ == (StreamStatsView {
                stream_id: stream_id@,
                stream_url: self.stream_url@,
                is_recording: self.is_recording,
                stats: self.stats@,
            }),
    {
        StreamStats {
            stream_id: String::from_str(stream_id),
            stream_url: self.stream_url.clone(),
            is_recording: self.is_recording,
            stats: self.stats.clone(),
        }
    }
}

// ---------------------------------------------------------------------------
// All streams

pub open spec fn recorder_views(v: Seq<StreamRecorder>) -> Seq<StreamRecorderView> {
    v.map_values(|r: StreamRecorder| r@)
}

/// No two recorders serve the same stream id.
pub open spec fn ids_unique(rs: Seq<StreamRecorderView>) -> bool {
    forall|i: int, j: int|
        0 <= i < rs.len() && 0 <= j < rs.len() && i != j ==> rs[i].stream_id != rs[j].stream_id
}

/// Index of the first recorder at or after `i` that serves `id`.
pub open spec fn index_from(rs: Seq<StreamRecorderView>, id: Seq<char>, i: nat) -> Option<nat>
    decreases rs.len() - i,
{
    if i >= rs.len() {
        None
    } else if rs[i as int].stream_id == id {
        Some(i)
    } else {
        index_from(rs, id, i + 1)
    }
}

/// Index of the recorder that serves `id`.
pub open spec fn index_of(rs: Seq<StreamRecorderView>, id: Seq<char>) -> Option<nat> {
    index_from(rs, id, 0)
}

/// Recorders once `r` is registered: it replaces the recorder with its id,
/// or comes last when there is none.
pub open spec fn insert_recorder(rs: Seq<StreamRecorderView>, r: StreamRecorderView) -> Seq<
    StreamRecorderView,
> {
    match index_of(rs, r.stream_id) {
        Some(k) => rs.update(k as int, r),
        None => rs.push(r),
    }
}

/// Recorders once each of `streams` got a fresh recorder, in order.
pub open spec fn register_streams(
    rs: Seq<StreamRecorderView>,
    streams: Seq<StreamConfigView>,
) -> Seq<StreamRecorderView>
    decreases streams.len(),
{
    if streams.len() == 0 {
        rs
    } else {
        insert_recorder(register_streams(rs, streams.drop_last()), fresh_recorder(streams.last()))
    }
}

/// Whether starting stream `id` succeeds: it is known and not recording.
pub open spec fn start_succeeds(rs: Seq<StreamRecorderView>, id: Seq<char>) -> bool {
    match index_of(rs, id) {
        Some(k) => !rs[k as int].is_recording,
        None => false,
    }
}

/// Recorders once stream `id` was asked to start.
pub open spec fn start_one(rs: Seq<StreamRecorderView>, id: Seq<char>) -> Seq<StreamRecorderView> {
    match index_of(rs, id) {
        Some(k) => if !rs[k as int].is_recording {
            rs.update(k as int, with_recording(rs[k as int], true))
        } else {
            rs
        },
        None => rs,
    }
}

/// Starting each of `ids` in turn: the recorders after it, and the ids that started.
pub open spec fn start_all(rs: Seq<StreamRecorderView>, ids: Seq<Seq<char>>) -> (
    Seq<StreamRecorderView>,
    Seq<Seq<char>>,
)
    decreases ids.len(),
{
    if ids.len() == 0 {
        (rs, seq![])
    } else {
        let (before, started) = start_all(rs, ids.drop_last());
        let id = ids.last();
        (
            start_one(before, id),
            if start_succeeds(before, id) {
                started.push(id)
            } else {
                started
            },
        )
    }
}

/// Whether stopping stream `id` succeeds: it is known and recording.
pub open spec fn stop_succeeds(rs: Seq<StreamRecorderView>, id: Seq<char>) -> bool {
    match index_of(rs, id) {
        Some(k) => rs[k as int].is_recording,
        None => false,
    }
}

/// Recorders once stream `id` was asked to stop.
pub open spec fn stop_one(rs: Seq<StreamRecorderView>, id: Seq<char>) -> Seq<StreamRecorderView> {
    match index_of(rs, id) {
        Some(k) => if rs[k as int].is_recording {
            rs.update(k as int, with_recording(rs[k as int], false))
        } else {
            rs
        },
        None => rs,
    }
}

/// Whether stream `id` records (false for unknown ids).
pub open spec fn stream_records(rs: Seq<StreamRecorderView>, id: Seq<char>) -> bool {
    match index_of(rs, id) {
        Some(k) => rs[k as int].is_recording,
        None => false,
    }
}

/// Recorders once every stream was asked to stop.
pub open spec fn stop_all(rs: Seq<StreamRecorderView>) -> Seq<StreamRecorderView> {
    rs.map_values(|x: StreamRecorderView| with_recording(x, false))
}

/// Ids of the enabled streams, in configuration order.
pub open spec fn enabled_ids(c: ConfigView) -> Seq<Seq<char>> {
    enabled_streams(c.streams).map_values(|s: StreamConfigView| s.id)
}

/// Number of files that the recorders' statistics count.
pub open spec fn total_files(rs: Seq<StreamRecorderView>) -> nat
    decreases rs.len(),
{
    if rs.len() == 0 {
        0
    } else {
        total_files(rs.drop_last()) + rs.last().stats.files_recorded as nat
    }
}

/// Number of recorders that record.
pub open spec fn active_count(rs: Seq<StreamRecorderView>) -> nat
    decreases rs.len(),
{
    if rs.len() == 0 {
        0
    } else {
        active_count(rs.drop_last()) + if rs.last().is_recording {
            1nat
        } else {
            0nat
        }
    }
}

/// A recorder's statistics as reported to clients.
pub open spec fn report_of(r: StreamRecorderView) -> StreamStatsView {
    StreamStatsView {
        stream_id: r.stream_id,
        stream_url: r.stream_url,
        is_recording: r.is_recording,
        stats: r.stats,
    }
}

/// Whether a directory entry's file name has the extension `mp4`.
pub open spec fn is_mp4_name(name: Seq<char>) -> bool {
    extension_spec(name) == Some("mp4"@)
}

/// Number of `mp4` names among the entries' file names.
pub open spec fn mp4_count(names: Seq<Seq<char>>) -> nat
    decreases names.len(),
{
    if names.len() == 0 {
        0
    } else {
        mp4_count(names.drop_last()) + if is_mp4_name(names.last()) {
            1nat
        } else {
            0nat
        }
    }
}

proof fn lemma_mp4_count_prefix(names: Seq<Seq<char>>, i: nat)
    requires
        i <= names.len(),
    ensures
        mp4_count(names.take(i as int)) <= mp4_count(names),
        mp4_count(names) <= names.len(),
    decreases names.len(),
{
    if names.len() > 0 {
        lemma_mp4_count_prefix(names.drop_last(), if i < names.len() {
            i
        } else {
            0
        });
    }
    if i < names.len() {
        assert(names.drop_last().take(i as int) =~= names.take(i as int));
    } else {
        assert(names.take(i as int) =~= names);
    }
}

fn is_mp4(name: &str) -> (b: bool)
    ensures
        b == is_mp4_name(name@),
{
    match extension(name) {
        Some(e) => same_text(e, "mp4"),
        None => false,
    }
}

/// Recording state of all configured streams.
#[derive(Debug)]
pub struct MultiStreamRecorder {
    config: Config,
    recorders: Vec<StreamRecorder>,
}

pub type VideoRecorder = MultiStreamRecorder;

pub struct MultiStreamRecorderView {
    pub config: ConfigView,
    pub recorders: Seq<StreamRecorderView>,
}

impl View for MultiStreamRecorder {
    type V = MultiStreamRecorderView;

    closed spec fn view(&self) -> MultiStreamRecorderView {
        MultiStreamRecorderView { config: self.config@, recorders: recorder_views(self.recorders@) }
    }
}

fn copy_recorders(v: &Vec<StreamRecorder>) -> (r: Vec<StreamRecorder>)
    ensures
        recorder_views(r@) == recorder_views(v@),
{
    let mut r: Vec<StreamRecorder> = Vec::new();
    let mut i: usize = 0;
    while i < v.len()
        invariant
            i <= v.len(),
            recorder_views(r@) == recorder_views(v@).take(i as int),
        decreases v.len() - i,
    {
        let c = v[i].clone();
        let ghost before = recorder_views(r@);
        r.push(c);
        assert(recorder_views(r@) =~= before.push(c@));
        assert(recorder_views(v@).take(i + 1) =~= recorder_views(v@).take(i as int).push(c@));
        i = i + 1;
    }
    assert(recorder_views(v@).take(i as int) =~= recorder_views(v@));
    r
}

impl Clone for MultiStreamRecorder {
    fn clone(&self) -> (r: Self)
        ensures
            r@ == self@,
    {
        proof {
            use_type_invariant(self);
        }
        MultiStreamRecorder { config: self.config.clone(), recorders: copy_recorders(&self.recorders) }
    }
}

/// Looks up the recorder of `id`.
fn find_recorder(recorders: &Vec<StreamRecorder>, id: &str) -> (r: Option<usize>)
    ensures
        r is None ==> index_of(recorder_views(recorders@), id@) is None,
        r matches Some(k) ==> index_of(recorder_views(recorders@), id@) == Some(k as nat) && k
            < recorders@.len(),
{
    let ghost rs = recorder_views(recorders@);
    let mut i: usize = 0;
    while i < recorders.len()
        invariant
            i <= recorders@.len(),
            rs == recorder_views(recorders@),
            index_from(rs, id@, i as nat) == index_of(rs, id@),
        decreases recorders@.len() - i,
    {
        if same_text(recorders[i].stream_id.as_str(), id) {
            return Some(i);
        }
        i = i + 1;
    }
    None
}

/// What `index_of` finds is the recorder with that id, and when it finds
/// nothing, no recorder has that id.
pub proof fn lemma_index_of(rs: Seq<StreamRecorderView>, id: Seq<char>)
    ensures
        index_of(rs, id) matches Some(k) ==> k < rs.len() && rs[k as int].stream_id == id,
        index_of(rs, id) is None ==> forall|k: int| 0 <= k < rs.len() ==> rs[k].stream_id != id,
{
    lemma_index_from(rs, id, 0);
}

proof fn lemma_index_from(rs: Seq<StreamRecorderView>, id: Seq<char>, i: nat)
    ensures
        index_from(rs, id, i) matches Some(k) ==> i <= k < rs.len() && rs[k as int].stream_id
            == id,
        index_from(rs, id, i) is None ==> forall|k: int| i <= k < rs.len() ==> rs[k].stream_id
            != id,
    decreases rs.len() - i,
{
    if i < rs.len() {
        lemma_index_from(rs, id, i + 1);
    }
}

/// Registering a recorder keeps the ids unique.
pub proof fn lemma_insert_unique(rs: Seq<StreamRecorderView>, r: StreamRecorderView)
    requires
        ids_unique(rs),
    ensures
        ids_unique(insert_recorder(rs, r)),
{
    lemma_index_of(rs, r.stream_id);
}

/// Registers a fresh recorder in place of the one with the same id.
fn insert_into(recorders: &mut Vec<StreamRecorder>, r: StreamRecorder)
    requires
        ids_unique(recorder_views(old(recorders)@)),
    ensures
        recorder_views(final(recorders)@) == insert_recorder(recorder_views(old(recorders)@), r@),
        ids_unique(recorder_views(final(recorders)@)),
{
    let ghost before = recorder_views(recorders@);
    proof {
        lemma_insert_unique(before, r@);
    }
    match find_recorder(recorders, r.stream_id.as_str()) {
        Some(k) => {
            let ghost rv = r@;
            recorders.set(k, r);
            assert(recorder_views(recorders@) =~= before.update(k as int, rv));
        },
        None => {
            let ghost rv = r@;
            recorders.push(r);
            assert(recorder_views(recorders@) =~= before.push(rv));
        },
    }
}

/// Starts recorder `k` (see `StreamRecorder::start_recording`).
fn start_at(recorders: &mut Vec<StreamRecorder>, k: usize) -> (r: Result<(), RecorderError>)
    requires
        k < old(recorders)@.len(),
    ensures
        recorder_views(old(recorders)@)[k as int].is_recording ==> (r matches Err(
            RecorderError::AlreadyRecording,
        ) && final(recorders)@ == old(recorders)@),
        !recorder_views(old(recorders)@)[k as int].is_recording ==> (r is Ok && recorder_views(
            final(recorders)@,
        ) == recorder_views(old(recorders)@).update(
            k as int,
            with_recording(recorder_views(old(recorders)@)[k as int], true),
        )),
{
    let ghost before = recorder_views(recorders@);
    let mut one = recorders[k].clone();
    let r = one.start_recording();
    if r.is_ok() {
        let ghost rv = one@;
        recorders.set(k, one);
        assert(recorder_views(recorders@) =~= before.update(k as int, rv));
    }
    r
}

/// Stops recorder `k` (see `StreamRecorder::stop_recording`).
fn stop_at(recorders: &mut Vec<StreamRecorder>, k: usize) -> (r: Result<(), RecorderError>)
    requires
        k < old(recorders)@.len(),
    ensures
        !recorder_views(old(recorders)@)[k as int].is_recording ==> (r matches Err(
            RecorderError::NotRecording,
        ) && final(recorders)@ == old(recorders)@),
        recorder_views(old(recorders)@)[k as int].is_recording ==> (r is Ok && recorder_views(
            final(recorders)@,
        ) == recorder_views(old(recorders)@).update(
            k as int,
            with_recording(recorder_views(old(recorders)@)[k as int], false),
        )),
{
    let ghost before = recorder_views(recorders@);
    let mut one = recorders[k].clone();
    let r = one.stop_recording();
    if r.is_ok() {
        let ghost rv = one@;
        recorders.set(k, one);
        assert(recorder_views(recorders@) =~= before.update(k as int, rv));
    }
    r
}

fn not_found(stream_id: &str) -> (e: RecorderError)
    ensures
        e matches RecorderError::StreamConnection(m) && m@ == "Stream not found: "@ + stream_id@,
{
    let mut m = String::from_str("Stream not found: ");
    m.append(stream_id);
    RecorderError::StreamConnection(m)
}

impl MultiStreamRecorder {
    #[verifier::type_invariant]
    spec fn inv(&self) -> bool {
        ids_unique(recorder_views(self.recorders@))
    }

    /// A recorder with no streams registered yet.
    pub fn new(config: Config) -> (r: Self)
        ensures
            r@.config == config@,
            r@.recorders == Seq::<StreamRecorderView>::empty(),
            ids_unique(r@.recorders),
    {
        let r = MultiStreamRecorder { config, recorders: Vec::new() };
        assert(recorder_views(r.recorders@) =~= Seq::<StreamRecorderView>::empty());
        r
    }

    /// The settings the recorder was made with.
    pub fn config(&self) -> (c: &Config)
        ensures
            c@ == self@.config,
    {
        &self.config
    }

    /// Gives every enabled stream a fresh recorder, in configuration order; a
    /// stream id seen again replaces the earlier recorder.
    pub fn initialize_streams(&mut self)
        ensures
            final(self)@.config == old(self)@.config,
            final(self)@.recorders == register_streams(
                old(self)@.recorders,
                enabled_streams(old(self)@.config.streams),
            ),
    {
        proof {
            use_type_invariant(&*self);
        }
        let mut recs: Vec<StreamRecorder> = Vec::new();
        std::mem::swap(&mut recs, &mut self.recorders);
        let enabled = self.config.get_enabled_streams();
        let ghost ev = enabled@.map_values(|s: &StreamConfig| s@);
        let ghost start = recorder_views(recs@);
        let mut i: usize = 0;
        while i < enabled.len()
            invariant
                i <= enabled@.len(),
                ev == enabled@.map_values(|s: &StreamConfig| s@),
                ids_unique(recorder_views(recs@)),
                recorder_views(recs@) == register_streams(start, ev.take(i as int)),
            decreases enabled@.len() - i,
        {
            let fresh = StreamRecorder::new(enabled[i]);
            insert_into(&mut recs, fresh);
            assert(ev.take(i + 1).drop_last() =~= ev.take(i as int));
            i = i + 1;
        }
        assert(ev.take(i as int) =~= ev);
        self.recorders = recs;
    }

    /// Seconds of video a segment file holds: the configured segment duration.
    pub fn extract_duration_from_filename(&self, path: &str, stream_id: &str) -> (d: Option<u64>)
        ensures
            d == Some(self@.config.segment_duration as u64),
    {
        Some(self.config.segment_duration as u64)
    }

    /// What a scan of a stream's directory finds, from its entries' file names:
    /// the number of `mp4` files and the seconds of video they hold.
    pub fn summarize_scan(&self, stream_id: &str, file_names: &Vec<String>) -> (r: (usize, u64))
        requires
            mp4_count(file_names@.map_values(|n: String| n@)) * self@.config.segment_duration
                <= u64::MAX,
        ensures
            r.0 == mp4_count(file_names@.map_values(|n: String| n@)),
            r.1 == mp4_count(file_names@.map_values(|n: String| n@)) * self@.config.segment_duration,
    {
        let ghost names = file_names@.map_values(|n: String| n@);
        let seg = self.config.segment_duration as u64;
        let mut files_count: usize = 0;
        let mut total_duration: u64 = 0;
        let mut i: usize = 0;
        while i < file_names.len()
            invariant
                i <= file_names@.len(),
                names == file_names@.map_values(|n: String| n@),
                seg == self@.config.segment_duration,
                mp4_count(names) * seg <= u64::MAX,
                files_count == mp4_count(names.take(i as int)),
                total_duration == files_count * seg,
            decreases file_names@.len() - i,
        {
            proof {
                assert(names.take(i + 1).drop_last() =~= names.take(i as int));
                assert(names.take(i + 1).last() == file_names@[i as int]@);
                lemma_mp4_count_prefix(names, (i + 1) as nat);
            }
            if is_mp4(file_names[i].as_str()) {
                let d = self.extract_duration_from_filename(file_names[i].as_str(), stream_id);
                proof {
                    assert((files_count + 1) * seg <= mp4_count(names) * seg) by (nonlinear_arith)
                        requires
                            files_count + 1 <= mp4_count(names),
                    ;
                    assert((files_count + 1) * seg == files_count * seg + seg) by (nonlinear_arith);
                }
                files_count = files_count + 1;
                match d {
                    Some(secs) => {
                        total_duration = total_duration + secs;
                    },
                    None => {
                        total_duration = total_duration + seg;
                    },
                }
            }
            i = i + 1;
        }
        assert(names.take(i as int) =~= names);
        (files_count, total_duration)
    }

    /// What `summarize_scan` gives, or `None` when the total duration would
    /// not fit in 64 bits.
    pub fn checked_summarize_scan(&self, stream_id: &str, file_names: &Vec<String>) -> (r: Option<
        (usize, u64),
    >)
        ensures
            r is None <==> mp4_count(file_names@.map_values(|n: String| n@))
                * self@.config.segment_duration > u64::MAX,
            r matches Some(p) ==> (p.0 == mp4_count(file_names@.map_values(|n: String| n@)) && p.1
                == mp4_count(file_names@.map_values(|n: String| n@))
                * self@.config.segment_duration),
    {
        let ghost names = file_names@.map_values(|n: String| n@);
        let mut count: u64 = 0;
        let mut i: usize = 0;
        while i < file_names.len()
            invariant
                i <= file_names@.len(),
                names == file_names@.map_values(|n: String| n@),
                count == mp4_count(names.take(i as int)),
                count <= i,
            decreases file_names@.len() - i,
        {
            proof {
                assert(names.take(i + 1).drop_last() =~= names.take(i as int));
                assert(names.take(i + 1).last() == file_names@[i as int]@);
            }
            if is_mp4(file_names[i].as_str()) {
                count = count + 1;
            }
            i = i + 1;
        }
        assert(names.take(i as int) =~= names);
        let seg = self.config.segment_duration as u128;
        proof {
            assert((count as u128) * seg <= u64::MAX * u32::MAX) by (nonlinear_arith)
                requires
                    count <= u64::MAX,
                    seg <= u32::MAX,
            ;
        }
        if (count as u128) * seg <= u64::MAX as u128 {
            Some(self.summarize_scan(stream_id, file_names))
        } else {
            None
        }
    }

    /// Stores what a scan of stream `stream_id`'s directory found: the
    /// stream's statistics now count that many files and that total duration
    /// (`started_at` and the last file stay). Unknown ids change nothing.
    pub fn apply_scan(&mut self, stream_id: &str, files_count: usize, total_duration: u64)
        ensures
            final(self)@.config == old(self)@.config,
            match index_of(old(self)@.recorders, stream_id@) {
                Some(k) => final(self)@.recorders == old(self)@.recorders.update(
                    k as int,
                    StreamRecorderView {
                        files_recorded: files_count as u64,
                        stats: RecordingStatsView {
                            files_recorded: files_count as u64,
                            total_duration: total_duration,
                            ..old(self)@.recorders[k as int].stats
                        },
                        ..old(self)@.recorders[k as int]
                    },
                ),
                None => final(self)@.recorders == old(self)@.recorders,
            },
    {
        proof {
            use_type_invariant(&*self);
        }
        let mut recs: Vec<StreamRecorder> = Vec::new();
        std::mem::swap(&mut recs, &mut self.recorders);
        match find_recorder(&recs, stream_id) {
            Some(k) => {
                let ghost before = recorder_views(recs@);
                let mut r = recs[k].clone();
                r.files_recorded = files_count as u64;
                r.stats.files_recorded = files_count as u64;
                r.stats.total_duration = total_duration;
                let ghost rv = r@;
                recs.set(k, r);
                assert(recorder_views(recs@) =~= before.update(k as int, rv));
            },
            None => {},
        }
        self.recorders = recs;
    }

    /// Starts stream `stream_id`: refused when it is unknown or records already.
    pub fn start_stream(&mut self, stream_id: &str) -> (r: Result<(), RecorderError>)
        ensures
            final(self)@.config == old(self)@.config,
            final(self)@.recorders == start_one(old(self)@.recorders, stream_id@),
            r is Ok <==> start_succeeds(old(self)@.recorders, stream_id@),
            index_of(old(self)@.recorders, stream_id@) is None ==> (r matches Err(
                RecorderError::StreamConnection(m),
            ) && m@ == "Stream not found: "@ + stream_id@),
            index_of(old(self)@.recorders, stream_id@) is Some && !start_succeeds(
                old(self)@.recorders,
                stream_id@,
            ) ==> r matches Err(RecorderError::AlreadyRecording),
    {
        proof {
            use_type_invariant(&*self);
        }
        let mut recs: Vec<StreamRecorder> = Vec::new();
        std::mem::swap(&mut recs, &mut self.recorders);
        let r = match find_recorder(&recs, stream_id) {
            Some(k) => start_at(&mut recs, k),
            None => Err(not_found(stream_id)),
        };
        self.recorders = recs;
        r
    }

    /// Stops stream `stream_id`: refused when it is unknown or does not record.
    pub fn stop_stream(&mut self, stream_id: &str) -> (r: Result<(), RecorderError>)
        ensures
            final(self)@.config == old(self)@.config,
            final(self)@.recorders == stop_one(old(self)@.recorders, stream_id@),
            r is Ok <==> stop_succeeds(old(self)@.recorders, stream_id@),
            match index_of(old(self)@.recorders, stream_id@) {
                Some(k) => if old(self)@.recorders[k as int].is_recording {
                    r is Ok && final(self)@.recorders == old(self)@.recorders.update(
                        k as int,
                        with_recording(old(self)@.recorders[k as int], false),
                    )
                } else {
                    r matches Err(RecorderError::NotRecording) && final(self)@.recorders == old(
                        self,
                    )@.recorders
                },
                None => r matches Err(RecorderError::StreamConnection(m)) && m@
                    == "Stream not found: "@ + stream_id@ && final(self)@.recorders == old(
                    self,
                )@.recorders,
            },
    {
        proof {
            use_type_invariant(&*self);
        }
        let mut recs: Vec<StreamRecorder> = Vec::new();
        std::mem::swap(&mut recs, &mut self.recorders);
        let r = match find_recorder(&recs, stream_id) {
            Some(k) => stop_at(&mut recs, k),
            None => Err(not_found(stream_id)),
        };
        self.recorders = recs;
        r
    }

    /// Notes that stream `stream_id`'s recording session has returned: the
    /// stream no longer records and can be started again. Unknown ids and
    /// streams that were stopped already change nothing.
    pub fn end_session(&mut self, stream_id: &str)
        ensures
            final(self)@.config == old(self)@.config,
            final(self)@.recorders == stop_one(old(self)@.recorders, stream_id@),
    {
        proof {
            use_type_invariant(&*self);
        }
        let mut recs: Vec<StreamRecorder> = Vec::new();
        std::mem::swap(&mut recs, &mut self.recorders);
        match find_recorder(&recs, stream_id) {
            Some(k) => {
                let _ = stop_at(&mut recs, k);
            },
            None => {},
        }
        self.recorders = recs;
    }

    /// Whether stream `stream_id` records (false for unknown ids).
    pub fn is_stream_recording(&self, stream_id: &str) -> (b: bool)
        ensures
            ids_unique(self@.recorders),
            b == stream_records(self@.recorders, stream_id@),
    {
        proof {
            use_type_invariant(self);
        }
        match find_recorder(&self.recorders, stream_id) {
            Some(k) => self.recorders[k].is_recording,
            None => false,
        }
    }

    /// Statistics of stream `stream_id`, if it is known.
    pub fn get_stream_stats(&self, stream_id: &str) -> (s: Option<StreamStats>)
        ensures
            ids_unique(self@.recorders),
            match index_of(self@.recorders, stream_id@) {
                Some(k) => s matches Some(st) && st@ == StreamStatsView {
                    stream_id: stream_id@,
                    ..report_of(self@.recorders[k as int])
                },
                None => s is None,
            },
    {
        proof {
            use_type_invariant(self);
        }
        match find_recorder(&self.recorders, stream_id) {
            Some(k) => Some(self.recorders[k].report(stream_id)),
            None => None,
        }
    }

    /// Statistics of every stream, in registration order, with the number of
    /// files they counted and the number of streams that record.
    pub fn get_multi_stream_stats(&self) -> (m: MultiStreamStats)
        requires
            total_files(self@.recorders) <= u64::MAX,
        ensures
            ids_unique(self@.recorders),
            m.streams@.map_values(|s: StreamStats| s@) == self@.recorders.map_values(
                |r: StreamRecorderView| report_of(r),
            ),
            m.total_files_recorded == total_files(self@.recorders),
            m.active_streams == active_count(self@.recorders),
    {
        proof {
            use_type_invariant(self);
        }
        let ghost rs = recorder_views(self.recorders@);
        let mut streams: Vec<StreamStats> = Vec::new();
        let mut total_files_recorded: u64 = 0;
        let mut active_streams: u64 = 0;
        let mut i: usize = 0;
        while i < self.recorders.len()
            invariant
                i <= self.recorders@.len(),
                rs == recorder_views(self.recorders@),
                total_files(rs) <= u64::MAX,
                streams@.map_values(|s: StreamStats| s@) == rs.take(i as int).map_values(
                    |r: StreamRecorderView| report_of(r),
                ),
                total_files_recorded == total_files(rs.take(i as int)),
                active_streams == active_count(rs.take(i as int)),
                active_streams <= i,
            decreases self.recorders@.len() - i,
        {
            let r = &self.recorders[i];
            proof {
                assert(rs.take(i + 1).drop_last() =~= rs.take(i as int));
                lemma_total_files_prefix(rs, (i + 1) as nat);
            }
            total_files_recorded = total_files_recorded + r.stats.files_recorded;
            if r.is_recording {
                active_streams = active_streams + 1;
            }
            let ghost before = streams@.map_values(|s: StreamStats| s@);
            let st = r.report(r.stream_id.as_str());
            streams.push(st);
            assert(streams@.map_values(|s: StreamStats| s@) =~= before.push(st@));
            i = i + 1;
            assert(rs.take(i as int).map_values(|r: StreamRecorderView| report_of(r)) =~= rs.take(
                (i - 1) as int,
            ).map_values(|r: StreamRecorderView| report_of(r)).push(report_of(rs[i - 1])));
        }
        assert(rs.take(i as int) =~= rs);
        MultiStreamStats { streams, total_files_recorded, active_streams }
    }

    /// Ids of all registered streams, in registration order.
    pub fn list_streams(&self) -> (ids: Vec<String>)
        ensures
            ids_unique(self@.recorders),
            ids@.map_values(|s: String| s@) == self@.recorders.map_values(
                |r: StreamRecorderView| r.stream_id,
            ),
    {
        proof {
            use_type_invariant(self);
        }
        let ghost rs = recorder_views(self.recorders@);
        let mut ids: Vec<String> = Vec::new();
        let mut i: usize = 0;
        while i < self.recorders.len()
            invariant
                i <= self.recorders@.len(),
                rs == recorder_views(self.recorders@),
                ids@.map_values(|s: String| s@) == rs.take(i as int).map_values(
                    |r: StreamRecorderView| r.stream_id,
                ),
            decreases self.recorders@.len() - i,
        {
            let ghost before = ids@.map_values(|s: String| s@);
            let id = self.recorders[i].stream_id.clone();
            ids.push(id);
            assert(ids@.map_values(|s: String| s@) =~= before.push(rs[i as int].stream_id));
            i = i + 1;
            assert(rs.take(i as int).map_values(|r: StreamRecorderView| r.stream_id) =~= rs.take(
                (i - 1) as int,
            ).map_values(|r: StreamRecorderView| r.stream_id).push(rs[i - 1].stream_id));
        }
        assert(rs.take(i as int) =~= rs);
        ids
    }

    /// Whether any stream records.
    pub fn is_recording(&self) -> (b: bool)
        ensures
            ids_unique(self@.recorders),
            b == exists|k: int| 0 <= k < self@.recorders.len() && self@.recorders[k].is_recording,
    {
        proof {
            use_type_invariant(self);
        }
        let ghost rs = recorder_views(self.recorders@);
        let mut i: usize = 0;
        while i < self.recorders.len()
            invariant
                i <= self.recorders@.len(),
                rs == recorder_views(self.recorders@),
                ids_unique(rs),
                forall|k: int| 0 <= k < i ==> !rs[k].is_recording,
            decreases self.recorders@.len() - i,
        {
            if self.recorders[i].is_recording {
                assert(rs[i as int].is_recording);
                return true;
            }
            i = i + 1;
        }
        false
    }

    /// Statistics of the first enabled stream, or empty statistics when there
    /// is none or it has no recorder.
    pub fn get_stats(&self) -> (s: RecordingStats)
        ensures
            s@ == if enabled_streams(self@.config.streams).len() > 0 {
                match index_of(self@.recorders, enabled_streams(self@.config.streams)[0].id) {
                    Some(k) => self@.recorders[k as int].stats,
                    None => empty_stats(),
                }
            } else {
                empty_stats()
            },
    {
        let enabled = self.config.get_enabled_streams();
        if enabled.len() > 0 {
            proof {
                assert(enabled@.map_values(|x: &StreamConfig| x@)[0] == enabled@[0]@);
            }
            match self.get_stream_stats(enabled[0].id.as_str()) {
                Some(st) => {
                    return st.stats;
                },
                None => {},
            }
        }
        RecordingStats::empty()
    }

    /// Starts every enabled stream in configuration order and reports the ids
    /// that started; refused when none did.
    pub fn start(&mut self) -> (r: Result<Vec<String>, RecorderError>)
        ensures
            final(self)@.config == old(self)@.config,
            final(self)@.recorders == start_all(old(self)@.recorders, enabled_ids(old(self)@.config)).0,
            start_all(old(self)@.recorders, enabled_ids(old(self)@.config)).1.len() == 0 ==> (r matches Err(
                RecorderError::StreamConnection(m),
            ) && m@ == "No streams could be started"@),
            start_all(old(self)@.recorders, enabled_ids(old(self)@.config)).1.len() > 0 ==> (r matches Ok(
                ids,
            ) && ids@.map_values(|s: String| s@) == start_all(
                old(self)@.recorders,
                enabled_ids(old(self)@.config),
            ).1),
    {
        proof {
            use_type_invariant(&*self);
        }
        let mut recs: Vec<StreamRecorder> = Vec::new();
        std::mem::swap(&mut recs, &mut self.recorders);
        let enabled = self.config.get_enabled_streams();
        let ghost ev = enabled@.map_values(|s: &StreamConfig| s@);
        let ghost ids = ev.map_values(|s: StreamConfigView| s.id);
        let ghost start = recorder_views(recs@);
        let mut started: Vec<String> = Vec::new();
        let mut i: usize = 0;
        while i < enabled.len()
            invariant
                i <= enabled@.len(),
                ev == enabled@.map_values(|s: &StreamConfig| s@),
                ids == ev.map_values(|s: StreamConfigView| s.id),
                ids_unique(recorder_views(recs@)),
                recorder_views(recs@) == start_all(start, ids.take(i as int)).0,
                started@.map_values(|s: String| s@) == start_all(start, ids.take(i as int)).1,
            decreases enabled@.len() - i,
        {
            let id = enabled[i].id.as_str();
            proof {
                assert(ids.take(i + 1).drop_last() =~= ids.take(i as int));
                assert(ids.take(i + 1).last() == id@);
            }
            match find_recorder(&recs, id) {
                Some(k) => {
                    if start_at(&mut recs, k).is_ok() {
                        let ghost before = started@.map_values(|s: String| s@);
                        started.push(String::from_str(id));
                        assert(started@.map_values(|s: String| s@) =~= before.push(id@));
                    }
                },
                None => {},
            }
            i = i + 1;
        }
        assert(ids.take(i as int) =~= ids);
        self.recorders = recs;
        if started.len() == 0 {
            assert(start_all(start, ids).1.len() == 0);
            Err(RecorderError::StreamConnection(String::from_str("No streams could be started")))
        } else {
            Ok(started)
        }
    }

    /// Stops every stream that records and reports their ids in registration
    /// order; refused when none recorded.
    pub fn stop(&mut self) -> (r: Result<Vec<String>, RecorderError>)
        ensures
            final(self)@.config == old(self)@.config,
            final(self)@.recorders == stop_all(old(self)@.recorders),
            r matches Ok(ids) ==> ids@.map_values(|s: String| s@) == old(self)@.recorders.filter(
                |x: StreamRecorderView| x.is_recording,
            ).map_values(|x: StreamRecorderView| x.stream_id) && ids@.len() > 0,
            r is Err ==> (r matches Err(RecorderError::NotRecording) && old(self)@.recorders.filter(
                |x: StreamRecorderView| x.is_recording,
            ).len() == 0),
    {
        proof {
            use_type_invariant(&*self);
        }
        let mut recs: Vec<StreamRecorder> = Vec::new();
        std::mem::swap(&mut recs, &mut self.recorders);
        let ghost start = recorder_views(recs@);
        let ghost pred = |x: StreamRecorderView| x.is_recording;
        let mut stopped: Vec<String> = Vec::new();
        let mut i: usize = 0;
        while i < recs.len()
            invariant
                i <= recs@.len(),
                recs@.len() == start.len(),
                pred == (|x: StreamRecorderView| x.is_recording),
                ids_unique(recorder_views(recs@)),
                forall|k: int|
                    0 <= k < i ==> #[trigger] recorder_views(recs@)[k] == with_recording(
                        start[k],
                        false,
                    ),
                forall|k: int|
                    i <= k < start.len() ==> #[trigger] recorder_views(recs@)[k]
                        == start[k],
                stopped@.map_values(|s: String| s@) == start.take(i as int).filter(pred).map_values(
                    |x: StreamRecorderView| x.stream_id,
                ),
            decreases start.len() - i,
        {
            proof {
                reveal_with_fuel(Seq::filter, 1);
                assert(start.take(i + 1).drop_last() =~= start.take(i as int));
                assert(start.take(i + 1).last() == start[i as int]);
                assert(recorder_views(recs@)[i as int] == start[i as int]);
                assert(recorder_views(recs@)[i as int] == recs@[i as int]@);
                assert(recorder_views(recs@).len() == recs@.len());
                assert(start.take(i + 1).filter(pred) == if pred(start[i as int]) {
                    start.take(i as int).filter(pred).push(start[i as int])
                } else {
                    start.take(i as int).filter(pred)
                });
            }
            let ghost views_before = recorder_views(recs@);
            let ghost before = stopped@.map_values(|s: String| s@);
            let id = recs[i].stream_id.clone();
            if stop_at(&mut recs, i).is_ok() {
                stopped.push(id);
                assert(stopped@.map_values(|s: String| s@) =~= before.push(start[i as int].stream_id));
                let ghost newv = with_recording(views_before[i as int], false);
                assert(recorder_views(recs@) == views_before.update(i as int, newv));
                assert(recorder_views(recs@).len() == recs@.len());
                assert forall|k: int| 0 <= k < recs@.len() && k != i implies #[trigger] recorder_views(
                    recs@,
                )[k] == views_before[k] by {
                    assert(views_before.update(i as int, newv)[k] == views_before[k]);
                }
                assert(recorder_views(recs@)[i as int] == newv);
                assert(pred(start[i as int]));
                assert(start.take(i + 1).filter(pred).map_values(|x: StreamRecorderView| x.stream_id)
                    =~= start.take(i as int).filter(pred).map_values(
                    |x: StreamRecorderView| x.stream_id,
                ).push(start[i as int].stream_id));
            } else {
                assert(with_recording(start[i as int], false) == start[i as int]);
                assert(!pred(start[i as int]));
            }
            i = i + 1;
        }
        assert(start.take(i as int) =~= start);
        assert(recorder_views(recs@) =~= start.map_values(
            |x: StreamRecorderView| with_recording(x, false),
        ));
        self.recorders = recs;
        if stopped.len() == 0 {
            Err(RecorderError::NotRecording)
        } else {
            Ok(stopped)
        }
    }

    /// Stores when stream `stream_id`'s recording began. Unknown ids change nothing.
    pub fn set_started_at(&mut self, stream_id: &str, at: UtcTime)
        ensures
            final(self)@.config == old(self)@.config,
            match index_of(old(self)@.recorders, stream_id@) {
                Some(k) => final(self)@.recorders == old(self)@.recorders.update(
                    k as int,
                    StreamRecorderView {
                        stats: RecordingStatsView {
                            started_at: Some(at),
                            ..old(self)@.recorders[k as int].stats
                        },
                        ..old(self)@.recorders[k as int]
                    },
                ),
                None => final(self)@.recorders == old(self)@.recorders,
            },
    {
        proof {
            use_type_invariant(&*self);
        }
        let mut recs: Vec<StreamRecorder> = Vec::new();
        std::mem::swap(&mut recs, &mut self.recorders);
        match find_recorder(&recs, stream_id) {
            Some(k) => {
                let ghost before = recorder_views(recs@);
                let mut r = recs[k].clone();
                r.stats.started_at = Some(at);
                let ghost rv = r@;
                recs.set(k, r);
                assert(recorder_views(recs@) =~= before.update(k as int, rv));
            },
            None => {},
        }
        self.recorders = recs;
    }

    /// Counts a finished segment of stream `stream_id` written to `path`.
    /// Unknown ids change nothing.
    pub fn record_segment(&mut self, stream_id: &str, path: String)
        requires
            forall|k: int|
                0 <= k < old(self)@.recorders.len() && (#[trigger] old(self)@.recorders[k]).stream_id
                    == stream_id@ ==> old(self)@.recorders[k].stats.files_recorded < u64::MAX
                    && old(self)@.recorders[k].stats.total_duration
                    + old(self)@.config.segment_duration <= u64::MAX,
        ensures
            final(self)@.config == old(self)@.config,
            match index_of(old(self)@.recorders, stream_id@) {
                Some(k) => final(self)@.recorders == old(self)@.recorders.update(
                    k as int,
                    StreamRecorderView {
                        stats: stats_after_segment(
                            old(self)@.recorders[k as int].stats,
                            path@,
                            old(self)@.config.segment_duration,
                        ),
                        ..old(self)@.recorders[k as int]
                    },
                ),
                None => final(self)@.recorders == old(self)@.recorders,
            },
    {
        proof {
            use_type_invariant(&*self);
        }
        let mut recs: Vec<StreamRecorder> = Vec::new();
        std::mem::swap(&mut recs, &mut self.recorders);
        match find_recorder(&recs, stream_id) {
            Some(k) => {
                proof {
                    lemma_index_of(recorder_views(recs@), stream_id@);
                }
                let ghost before = recorder_views(recs@);
                let mut r = recs[k].clone();
                r.stats.record_segment(path, self.config.segment_duration);
                let ghost rv = r@;
                recs.set(k, r);
                assert(recorder_views(recs@) =~= before.update(k as int, rv));
            },
            None => {},
        }
        self.recorders = recs;
    }
}

/// Partial counts never exceed the full count.
pub proof fn lemma_total_files_prefix(rs: Seq<StreamRecorderView>, i: nat)
    requires
        i <= rs.len(),
    ensures
        total_files(rs.take(i as int)) <= total_files(rs),
    decreases rs.len(),
{
    if i < rs.len() {
        lemma_total_files_prefix(rs.drop_last(), i);
        assert(rs.drop_last().take(i as int) =~= rs.take(i as int));
    } else {
        assert(rs.take(i as int) =~= rs);
    }
}

/// With unique ids, the recorder that has an id is the one `index_of` finds.
pub proof fn lemma_index_of_unique(rs: Seq<StreamRecorderView>, id: Seq<char>, k: int)
    requires
        ids_unique(rs),
        0 <= k < rs.len(),
        rs[k].stream_id == id,
    ensures
        index_of(rs, id) == Some(k as nat),
{
    lemma_index_of(rs, id);
}

/// Starting a stream that is idle and then stopping it gives back exactly the
/// recorders there were before; while it records, a second start is refused.
pub proof fn law_start_stop_round_trip(rs: Seq<StreamRecorderView>, id: Seq<char>)
    requires
        ids_unique(rs),
        start_succeeds(rs, id),
    ensures
        !start_succeeds(start_one(rs, id), id),
        stop_succeeds(start_one(rs, id), id),
        stop_one(start_one(rs, id), id) == rs,
{
    lemma_index_of(rs, id);
    let k = index_of(rs, id)->0 as int;
    let on = start_one(rs, id);
    assert(on == rs.update(k, with_recording(rs[k], true)));
    assert(ids_unique(on)) by {
        assert forall|i: int, j: int|
            0 <= i < on.len() && 0 <= j < on.len() && i != j implies on[i].stream_id
            != on[j].stream_id by {
            assert(on[i].stream_id == rs[i].stream_id);
            assert(on[j].stream_id == rs[j].stream_id);
        }
    }
    lemma_index_of_unique(on, id, k);
    assert(with_recording(with_recording(rs[k], true), false) == rs[k]);
    assert(stop_one(on, id) =~= rs);
}

/// Stopping a stream that records and then starting it again gives back
/// exactly the recorders there were before.
pub proof fn law_stop_start_round_trip(rs: Seq<StreamRecorderView>, id: Seq<char>)
    requires
        ids_unique(rs),
        stop_succeeds(rs, id),
    ensures
        start_succeeds(stop_one(rs, id), id),
        start_one(stop_one(rs, id), id) == rs,
{
    lemma_index_of(rs, id);
    let k = index_of(rs, id)->0 as int;
    let off = stop_one(rs, id);
    assert(ids_unique(off)) by {
        assert forall|i: int, j: int|
            0 <= i < off.len() && 0 <= j < off.len() && i != j implies off[i].stream_id
            != off[j].stream_id by {
            assert(off[i].stream_id == rs[i].stream_id);
            assert(off[j].stream_id == rs[j].stream_id);
        }
    }
    lemma_index_of_unique(off, id, k);
    assert(with_recording(with_recording(rs[k], false), true) == rs[k]);
    assert(start_one(off, id) =~= rs);
}

/// Registering streams keeps the recorders' ids unique.
pub proof fn law_register_keeps_ids_unique(
    rs: Seq<StreamRecorderView>,
    streams: Seq<StreamConfigView>,
)
    requires
        ids_unique(rs),
    ensures
        ids_unique(register_streams(rs, streams)),
    decreases streams.len(),
{
    if streams.len() > 0 {
        law_register_keeps_ids_unique(rs, streams.drop_last());
        lemma_insert_unique(register_streams(rs, streams.drop_last()), fresh_recorder(streams.last()));
    }
}

/// Whether some recorder serves `id`.
pub open spec fn has_recorder(rs: Seq<StreamRecorderView>, id: Seq<char>) -> bool {
    exists|k: int| 0 <= k < rs.len() && rs[k].stream_id == id
}

proof fn lemma_insert_keeps_ids(rs: Seq<StreamRecorderView>, r: StreamRecorderView, id: Seq<char>)
    ensures
        has_recorder(insert_recorder(rs, r), r.stream_id),
        has_recorder(rs, id) ==> has_recorder(insert_recorder(rs, r), id),
{
    lemma_index_of(rs, r.stream_id);
    let out = insert_recorder(rs, r);
    match index_of(rs, r.stream_id) {
        Some(k) => {
            assert(out[k as int].stream_id == r.stream_id);
            if has_recorder(rs, id) {
                let j = choose|j: int| 0 <= j < rs.len() && rs[j].stream_id == id;
                assert(out[j].stream_id == id);
            }
        },
        None => {
            assert(out[rs.len() as int].stream_id == r.stream_id);
            if has_recorder(rs, id) {
                let j = choose|j: int| 0 <= j < rs.len() && rs[j].stream_id == id;
                assert(out[j].stream_id == id);
            }
        },
    }
}

/// After registration every registered stream has a recorder, and recorders
/// that were there keep their ids.
pub proof fn law_registered_streams_known(
    rs: Seq<StreamRecorderView>,
    streams: Seq<StreamConfigView>,
    id: Seq<char>,
)
    ensures
        (exists|i: int| 0 <= i < streams.len() && streams[i].id == id) ==> has_recorder(
            register_streams(rs, streams),
            id,
        ),
        has_recorder(rs, id) ==> has_recorder(register_streams(rs, streams), id),
    decreases streams.len(),
{
    if streams.len() > 0 {
        let prefix = streams.drop_last();
        law_registered_streams_known(rs, prefix, id);
        let before = register_streams(rs, prefix);
        lemma_insert_keeps_ids(before, fresh_recorder(streams.last()), id);
        if exists|i: int| 0 <= i < streams.len() && streams[i].id == id {
            let i = choose|i: int| 0 <= i < streams.len() && streams[i].id == id;
            if i < streams.len() - 1 {
                assert(prefix[i].id == id);
            }
        }
    }
}

/// After stopping everything no stream records.
pub proof fn law_stop_all_leaves_none_recording(rs: Seq<StreamRecorderView>)
    ensures
        forall|k: int|
            0 <= k < rs.len() ==> !(#[trigger] stop_all(rs)[k]).is_recording,
{
}

/// No more streams record than there are.
pub proof fn law_active_bounded(rs: Seq<StreamRecorderView>)
    ensures
        active_count(rs) <= rs.len(),
    decreases rs.len(),
{
    if rs.len() > 0 {
        law_active_bounded(rs.drop_last());
    }
}

/// Starting or stopping one stream leaves every other stream's recorder as it
/// was, and keeps the number of recorders.
pub proof fn law_streams_are_independent(rs: Seq<StreamRecorderView>, id: Seq<char>, k: int)
    requires
        0 <= k < rs.len(),
        rs[k].stream_id != id,
    ensures
        start_one(rs, id).len() == rs.len(),
        stop_one(rs, id).len() == rs.len(),
        start_one(rs, id)[k] == rs[k],
        stop_one(rs, id)[k] == rs[k],
{
    lemma_index_of(rs, id);
}

/// Recorders that keep every id in place and differ only in other fields
/// find each id at the same index.
proof fn lemma_index_from_same_ids(
    a: Seq<StreamRecorderView>,
    b: Seq<StreamRecorderView>,
    id: Seq<char>,
    i: nat,
)
    requires
        a.len() == b.len(),
        forall|k: int| 0 <= k < a.len() ==> a[k].stream_id == b[k].stream_id,
    ensures
        index_from(a, id, i) == index_from(b, id, i),
    decreases a.len() - i,
{
    if i < a.len() {
        lemma_index_from_same_ids(a, b, id, i + 1);
    }
}

/// Stopping a stream, or ending its session, leaves every id where it was.
proof fn lemma_stop_one_keeps_ids(rs: Seq<StreamRecorderView>, id: Seq<char>, other: Seq<char>)
    ensures
        stop_one(rs, id).len() == rs.len(),
        forall|k: int| 0 <= k < rs.len() ==> stop_one(rs, id)[k].stream_id == rs[k].stream_id,
        index_of(stop_one(rs, id), other) == index_of(rs, other),
{
    lemma_index_of(rs, id);
    let after = stop_one(rs, id);
    assert forall|k: int| 0 <= k < rs.len() implies after[k].stream_id == rs[k].stream_id by {}
    lemma_index_from_same_ids(after, rs, other, 0);
}

/// Once stream `id` was stopped or its session ended, the stream does not
/// record, so its session's loops end: the retry loop allows no further
/// attempt (`RetryState::may_attempt`) and the current segment takes no
/// further packet (`keep_filling_segment`). A registered stream can then be
/// started again.
pub proof fn law_stop_ends_session(
    rs: Seq<StreamRecorderView>,
    id: Seq<char>,
    retry_count: nat,
    max_retries: nat,
    elapsed_secs: nat,
    segment_duration: nat,
)
    ensures
        !stream_records(stop_one(rs, id), id),
        !(stream_records(stop_one(rs, id), id) && attempts_left(retry_count, max_retries)),
        !(stream_records(stop_one(rs, id), id) && elapsed_secs < segment_duration),
        index_of(rs, id) is Some ==> start_succeeds(stop_one(rs, id), id),
{
    lemma_stop_one_keeps_ids(rs, id, id);
    lemma_index_of(rs, id);
}

/// With unique ids, the statistics of all streams hold exactly one entry per
/// registered id, and entry `k` is what `get_stream_stats` reports for the
/// `k`-th listed id.
pub proof fn law_one_entry_per_stream(rs: Seq<StreamRecorderView>)
    requires
        ids_unique(rs),
    ensures
        forall|i: int, j: int|
            0 <= i < rs.len() && 0 <= j < rs.len() && i != j ==> report_of(rs[i]).stream_id
                != report_of(rs[j]).stream_id,
        forall|k: int|
            #![trigger rs[k]]
            0 <= k < rs.len() ==> (match index_of(rs, rs[k].stream_id) {
                Some(x) => StreamStatsView {
                    stream_id: rs[k].stream_id,
                    ..report_of(rs[x as int])
                } == report_of(rs[k]),
                None => false,
            }),
{
    assert forall|k: int| #![trigger rs[k]] 0 <= k < rs.len() implies (match index_of(rs, rs[k].stream_id) {
        Some(x) => StreamStatsView { stream_id: rs[k].stream_id, ..report_of(rs[x as int]) }
            == report_of(rs[k]),
        None => false,
    }) by {
        lemma_index_of_unique(rs, rs[k].stream_id, k);
    }
}

/// With unique ids, some stream records exactly when some listed id records
/// (`is_recording` against `list_streams` and `is_stream_recording`).
pub proof fn law_recording_iff_some_listed_stream_records(rs: Seq<StreamRecorderView>)
    requires
        ids_unique(rs),
    ensures
        (exists|k: int| 0 <= k < rs.len() && rs[k].is_recording) <==> (exists|k: int|
            0 <= k < rs.len() && stream_records(rs, #[trigger] rs[k].stream_id)),
{
    if exists|k: int| 0 <= k < rs.len() && rs[k].is_recording {
        let k = choose|k: int| 0 <= k < rs.len() && rs[k].is_recording;
        lemma_index_of_unique(rs, rs[k].stream_id, k);
        assert(stream_records(rs, rs[k].stream_id));
    }
    if exists|k: int| 0 <= k < rs.len() && stream_records(rs, #[trigger] rs[k].stream_id) {
        let k = choose|k: int| 0 <= k < rs.len() && stream_records(rs, #[trigger] rs[k].stream_id);
        lemma_index_of_unique(rs, rs[k].stream_id, k);
        assert(rs[k].is_recording);
    }
}

/// The number of files of all streams adds up stream by stream: none for no
/// streams, and one more stream adds its own count.
pub proof fn law_total_files_adds_up(rs: Seq<StreamRecorderView>, r: StreamRecorderView)
    ensures
        total_files(Seq::<StreamRecorderView>::empty()) == 0,
        total_files(rs.push(r)) == total_files(rs) + r.stats.files_recorded,
        active_count(Seq::<StreamRecorderView>::empty()) == 0,
        active_count(rs.push(r)) == active_count(rs) + if r.is_recording {
            1nat
        } else {
            0nat
        },
{
    assert(rs.push(r).drop_last() =~= rs);
}

/// The number of files of two groups of streams is the sum of their numbers.
pub proof fn law_total_files_of_concatenation(a: Seq<StreamRecorderView>, b: Seq<StreamRecorderView>)
    ensures
        total_files(a + b) == total_files(a) + total_files(b),
    decreases b.len(),
{
    if b.len() == 0 {
        assert(a + b =~= a);
    } else {
        law_total_files_of_concatenation(a, b.drop_last());
        assert((a + b).drop_last() =~= a + b.drop_last());
        assert((a + b).last() == b.last());
    }
}

/// Asking stream `x` to start leaves every id where it was, and changes only
/// the recorder of `x`, which then records.
proof fn lemma_start_one_effect(rs: Seq<StreamRecorderView>, x: Seq<char>, id: Seq<char>)
    ensures
        start_one(rs, x).len() == rs.len(),
        forall|k: int| 0 <= k < rs.len() ==> #[trigger] start_one(rs, x)[k].stream_id == rs[k].stream_id,
        index_of(start_one(rs, x), id) == index_of(rs, id),
        index_of(rs, id) matches Some(k) ==> start_one(rs, x)[k as int] == (if x == id {
            with_recording(rs[k as int], true)
        } else {
            rs[k as int]
        }),
{
    lemma_index_of(rs, x);
    lemma_index_of(rs, id);
    let after = start_one(rs, x);
    assert forall|k: int| 0 <= k < rs.len() implies #[trigger] after[k].stream_id == rs[k].stream_id by {}
    lemma_index_from_same_ids(after, rs, id, 0);
}

/// Starting the streams `ids` in turn leaves every id where it was; a
/// registered stream records afterwards when it was listed, and is unchanged
/// otherwise.
proof fn lemma_start_all_effect(rs: Seq<StreamRecorderView>, ids: Seq<Seq<char>>, id: Seq<char>)
    ensures
        start_all(rs, ids).0.len() == rs.len(),
        forall|k: int|
            0 <= k < rs.len() ==> #[trigger] start_all(rs, ids).0[k].stream_id == rs[k].stream_id,
        index_of(start_all(rs, ids).0, id) == index_of(rs, id),
        index_of(rs, id) matches Some(k) ==> start_all(rs, ids).0[k as int] == (if ids.contains(id) {
            with_recording(rs[k as int], true)
        } else {
            rs[k as int]
        }),
    decreases ids.len(),
{
    if ids.len() > 0 {
        let p = ids.drop_last();
        let x = ids.last();
        lemma_start_all_effect(rs, p, id);
        lemma_start_all_effect(rs, p, x);
        let before = start_all(rs, p).0;
        lemma_start_one_effect(before, x, id);
        assert(ids =~= p.push(x));
        assert(ids.contains(id) <==> p.contains(id) || x == id) by {
            if x == id {
                assert(ids[ids.len() - 1] == id);
            }
            if p.contains(id) {
                let j = choose|j: int| 0 <= j < p.len() && p[j] == id;
                assert(ids[j] == id);
            }
            if ids.contains(id) && x != id {
                let j = choose|j: int| 0 <= j < ids.len() && ids[j] == id;
                assert(p[j] == id);
            }
        }
        let after = start_one(before, x);
        assert forall|k: int| 0 <= k < rs.len() implies #[trigger] after[k].stream_id
            == rs[k].stream_id by {
            assert(after[k].stream_id == before[k].stream_id);
        }
    } else {
        assert(!ids.contains(id));
    }
}

/// Starting all of `ids` (the enabled streams) succeeds for at least one
/// stream exactly when some listed stream was registered and idle before;
/// when no id is listed twice, the streams reported as started are exactly
/// the listed ones that were registered and idle before, in list order,
/// whatever happened to the others. Afterwards every listed registered
/// stream records.
pub proof fn law_start_all_starts_idle_streams(rs: Seq<StreamRecorderView>, ids: Seq<Seq<char>>)
    ensures
        start_all(rs, ids).1.len() > 0 <==> exists|i: int|
            0 <= i < ids.len() && start_succeeds(rs, #[trigger] ids[i]),
        ids.no_duplicates() ==> start_all(rs, ids).1 == ids.filter(
            |x: Seq<char>| start_succeeds(rs, x),
        ),
        forall|i: int|
            0 <= i < ids.len() && index_of(rs, #[trigger] ids[i]) is Some ==> stream_records(
                start_all(rs, ids).0,
                ids[i],
            ),
    decreases ids.len(),
{
    reveal_with_fuel(Seq::filter, 1);
    if ids.len() > 0 {
        let p = ids.drop_last();
        let x = ids.last();
        law_start_all_starts_idle_streams(rs, p);
        lemma_start_all_effect(rs, p, x);
        lemma_index_of(rs, x);
        let before = start_all(rs, p).0;
        assert(ids =~= p.push(x));
        // the listed ids before the last one
        assert forall|i: int| 0 <= i < p.len() implies #[trigger] p[i] == ids[i] by {}
        // existence of an idle listed stream
        if exists|i: int| 0 <= i < ids.len() && start_succeeds(rs, #[trigger] ids[i]) {
            let i = choose|i: int| 0 <= i < ids.len() && start_succeeds(rs, #[trigger] ids[i]);
            if i < p.len() {
                assert(start_succeeds(rs, p[i]));
            } else if !p.contains(x) {
                assert(start_succeeds(before, x));
            } else {
                let j = choose|j: int| 0 <= j < p.len() && p[j] == x;
                assert(start_succeeds(rs, p[j]));
            }
        }
        if start_all(rs, ids).1.len() > 0 {
            if start_all(rs, p).1.len() > 0 {
                let i = choose|i: int| 0 <= i < p.len() && start_succeeds(rs, #[trigger] p[i]);
                assert(start_succeeds(rs, ids[i]));
            } else {
                assert(start_succeeds(before, x));
                if p.contains(x) {
                    let j = choose|j: int| 0 <= j < p.len() && p[j] == x;
                    assert(ids[j] == x);
                } else {
                    assert(start_succeeds(rs, ids[ids.len() - 1]));
                }
            }
        }
        // exact list for distinct ids
        if ids.no_duplicates() {
            assert(p.no_duplicates()) by {
                assert forall|a: int, b: int| 0 <= a < p.len() && 0 <= b < p.len() && a != b implies p[a]
                    != p[b] by {
                    assert(ids[a] == p[a] && ids[b] == p[b]);
                }
            }
            assert(!p.contains(x)) by {
                if p.contains(x) {
                    let j = choose|j: int| 0 <= j < p.len() && p[j] == x;
                    assert(ids[j] == ids[ids.len() - 1]);
                }
            }
            assert(start_succeeds(before, x) == start_succeeds(rs, x));
            assert(ids.drop_last() == p);
        }
        // every listed registered stream records afterwards
        assert forall|i: int|
            0 <= i < ids.len() && index_of(rs, #[trigger] ids[i]) is Some implies stream_records(
            start_all(rs, ids).0,
            ids[i],
        ) by {
            let id = ids[i];
            lemma_start_all_effect(rs, ids, id);
            lemma_index_of(rs, id);
            assert(ids.contains(id));
        }
    }
}

} // verus!
