//! Disk bookkeeping: space figures, which files make room first, the state of
//! a cleanup run, and what a stream's directory holds.

use vstd::prelude::*;
use vstd::string::StringExecFns;
use crate::config::{
    Config, ConfigView, StreamConfig, StreamConfigView, directories_spec, enabled_streams,
    stream_output_dir,
};
use crate::recorder::UtcTime;
use crate::text::{ends_with, ends_with_spec};

verus! {

/// Space figures of the recording disk, in bytes.
#[derive(Debug, Clone, Copy, PartialEq, Eq, Structural)]
pub struct StorageInfo {
    pub total_space: u64,
    pub available_space: u64,
    pub used_space: u64,
}

/// Multiplier of the available space that estimates the disk's size.
pub const TOTAL_SPACE_ESTIMATE_FACTOR: u64 = 10;

/// Estimated size of the disk: ten times the available space.
pub fn estimated_total_space(available: u64) -> (total: u64)
    requires
        available * TOTAL_SPACE_ESTIMATE_FACTOR <= u64::MAX,
    ensures
        total == available * TOTAL_SPACE_ESTIMATE_FACTOR,
{
    available * TOTAL_SPACE_ESTIMATE_FACTOR
}

/// Space figures from two readings of the available space: `available` as
/// read first, and `total`, the disk size estimated from a second reading.
/// The used space is what the total leaves beside the available space.
pub fn storage_from(available: u64, total: u64) -> (info: StorageInfo)
    ensures
        info.available_space == available,
        info.total_space == total,
        info.used_space == if total >= available {
            total - available
        } else {
            0
        },
{
    let used = total.saturating_sub(available);
    StorageInfo { total_space: total, available_space: available, used_space: used }
}

/// When both readings agree, used and available space add up to the total,
/// and the used space is nine times the available space.
pub proof fn law_storage_figures(available: u64, total: u64, used: u64)
    requires
        available * TOTAL_SPACE_ESTIMATE_FACTOR <= u64::MAX,
        total == available * TOTAL_SPACE_ESTIMATE_FACTOR,
        used == if total >= available {
            total - available
        } else {
            0
        },
    ensures
        used + available == total,
        used == 9 * available,
{
}

/// Whether a file path names a video segment: it ends in `.mp4`.
pub fn is_segment_path(path: &str) -> (b: bool)
    ensures
        b == ends_with_spec(path@, ".mp4"@),
{
    ends_with(path, ".mp4")
}

// ---------------------------------------------------------------------------
// Cleanup order

/// `a` precedes `b` in the order by key, then by index.
pub open spec fn key_before(keys: Seq<i128>, a: int, b: int) -> bool {
    keys[a] < keys[b] || (keys[a] == keys[b] && a < b)
}

/// `order` lists every index of `keys` once, by increasing key; equal keys
/// keep their input order. This is the order of a stable sort by key.
pub open spec fn stable_sorted_by(keys: Seq<i128>, order: Seq<usize>) -> bool {
    &&& order.len() == keys.len()
    &&& forall|i: int| 0 <= i < order.len() ==> (#[trigger] order[i] as int) < keys.len()
    &&& forall|i: int, j: int|
        #![trigger order[i], order[j]]
        0 <= i < j < order.len() ==> key_before(keys, order[i] as int, order[j] as int)
}

/// Indices of `keys` in stable order of increasing key (see `stable_sorted_by`).
pub fn oldest_first(keys: &Vec<i128>) -> (order: Vec<usize>)
    ensures
        stable_sorted_by(keys@, order@),
{
    let n = keys.len();
    let mut order: Vec<usize> = Vec::new();
    let mut i: usize = 0;
    while i < n
        invariant
            n == keys@.len(),
            i <= n,
            order@.len() == i,
            forall|q: int| 0 <= q < order@.len() ==> (#[trigger] order@[q] as int) < i,
            forall|q: int, r: int|
                #![trigger order@[q], order@[r]]
                0 <= q < r < order@.len() ==> {
                    let a = order@[q] as int;
                    let b = order@[r] as int;
                    keys@[a] < keys@[b] || (keys@[a] == keys@[b] && a < b)
                },
        decreases n - i,
    {
        let key = keys[i];
        let mut p: usize = 0;
        while p < order.len() && keys[order[p]] <= key
            invariant
                n == keys@.len(),
                i < n,
                key == keys@[i as int],
                order@.len() == i,
                p <= order@.len(),
                forall|q: int| 0 <= q < order@.len() ==> (#[trigger] order@[q] as int) < i,
                forall|q: int| 0 <= q < p ==> keys@[#[trigger] order@[q] as int] <= key,
            decreases order@.len() - p,
        {
            p = p + 1;
        }
        let ghost old_order = order@;
        proof {
            assert forall|q: int| p <= q < old_order.len() implies key < keys@[
                #[trigger] old_order[q] as int] by {
                if q > p {
                    let a = old_order[p as int] as int;
                    let b = old_order[q] as int;
                    assert(keys@[a] < keys@[b] || (keys@[a] == keys@[b] && a < b));
                }
            }
        }
        order.insert(p, i);
        proof {
            let no = order@;
            assert(no == old_order.insert(p as int, i));
            assert forall|q: int| 0 <= q < no.len() implies (#[trigger] no[q] as int) < i + 1 by {
                if q < p {
                    assert(no[q] == old_order[q]);
                } else if q > p {
                    assert(no[q] == old_order[q - 1]);
                }
            }
            assert forall|q: int, r: int|
                #![trigger no[q], no[r]]
                0 <= q < r < no.len() implies {
                let a = no[q] as int;
                let b = no[r] as int;
                keys@[a] < keys@[b] || (keys@[a] == keys@[b] && a < b)
            } by {
                if r < p {
                    assert(no[q] == old_order[q]);
                    assert(no[r] == old_order[r]);
                } else if r == p {
                    assert(no[q] == old_order[q]);
                    assert(keys@[old_order[q] as int] <= key);
                } else if q < p {
                    assert(no[q] == old_order[q]);
                    assert(no[r] == old_order[r - 1]);
                    assert(keys@[old_order[q] as int] <= key);
                    assert(key < keys@[old_order[r - 1] as int]);
                } else if q == p {
                    assert(no[r] == old_order[r - 1]);
                    assert(key < keys@[old_order[r - 1] as int]);
                } else {
                    assert(no[q] == old_order[q - 1]);
                    assert(no[r] == old_order[r - 1]);
                }
            }
        }
        i = i + 1;
    }
    order
}

/// A stable order lists no index twice: with its length and range, it is a
/// permutation of the indices.
pub proof fn law_stable_order_is_permutation(keys: Seq<i128>, order: Seq<usize>)
    requires
        stable_sorted_by(keys, order),
    ensures
        forall|i: int, j: int| 0 <= i < j < order.len() ==> order[i] != order[j],
{
    assert forall|i: int, j: int| 0 <= i < j < order.len() implies order[i] != order[j] by {
        let a = order[i] as int;
        let b = order[j] as int;
        assert(keys[a] < keys[b] || (keys[a] == keys[b] && a < b));
    }
}


/// A stable order lists every index of `keys`.
proof fn lemma_stable_order_covers(keys: Seq<i128>, order: Seq<usize>, k: int)
    requires
        stable_sorted_by(keys, order),
        0 <= k < keys.len(),
    ensures
        exists|j: int| 0 <= j < order.len() && order[j] as int == k,
{
    law_stable_order_is_permutation(keys, order);
    let ints = order.map_values(|x: usize| x as int);
    assert(ints.no_duplicates()) by {
        assert forall|i: int, j: int| 0 <= i < ints.len() && 0 <= j < ints.len() && i != j implies ints[i]
            != ints[j] by {
            if i < j {
                assert(order[i] != order[j]);
            } else {
                assert(order[j] != order[i]);
            }
        }
    }
    ints.unique_seq_to_set();
    let range = vstd::set_lib::set_int_range(0, keys.len() as int);
    vstd::set_lib::lemma_int_range(0, keys.len() as int);
    assert(ints.to_set().subset_of(range)) by {
        assert forall|x: int| ints.to_set().contains(x) implies range.contains(x) by {
            let i = choose|i: int| 0 <= i < ints.len() && ints[i] == x;
            assert(ints[i] == order[i] as int);
        }
    }
    vstd::seq_lib::seq_to_set_is_finite(ints);
    vstd::set_lib::lemma_subset_equality(ints.to_set(), range);
    assert(range.contains(k));
    assert(ints.to_set().contains(k));
    let j = choose|j: int| 0 <= j < ints.len() && ints[j] == k;
    assert(order[j] as int == k);
}

proof fn lemma_stable_orders_agree_up_to(keys: Seq<i128>, a: Seq<usize>, b: Seq<usize>, i: int)
    requires
        stable_sorted_by(keys, a),
        stable_sorted_by(keys, b),
        0 <= i < a.len(),
    ensures
        forall|k: int| 0 <= k <= i ==> a[k] == b[k],
    decreases i,
{
    if i > 0 {
        lemma_stable_orders_agree_up_to(keys, a, b, i - 1);
    }
    law_stable_order_is_permutation(keys, a);
    law_stable_order_is_permutation(keys, b);
    if a[i] != b[i] {
        lemma_stable_order_covers(keys, a, b[i] as int);
        lemma_stable_order_covers(keys, b, a[i] as int);
        let j = choose|j: int| 0 <= j < a.len() && a[j] as int == b[i] as int;
        let l = choose|l: int| 0 <= l < b.len() && b[l] as int == a[i] as int;
        if j < i {
            assert(a[j] == b[j]);
            assert(b[j] == b[i]);
        }
        if l < i {
            assert(a[l] == b[l]);
            assert(a[l] == a[i]);
        }
        assert(j > i && l > i);
        assert(key_before(keys, a[i] as int, a[j] as int));
        assert(key_before(keys, b[i] as int, b[l] as int));
    }
}

/// The stable order is unique: any two orders with the property of
/// `stable_sorted_by` are the same, so `oldest_first` gives exactly what a
/// stable sort by creation time gives.
pub proof fn law_stable_order_unique(keys: Seq<i128>, a: Seq<usize>, b: Seq<usize>)
    requires
        stable_sorted_by(keys, a),
        stable_sorted_by(keys, b),
    ensures
        a == b,
{
    assert forall|i: int| 0 <= i < a.len() implies a[i] == b[i] by {
        lemma_stable_orders_agree_up_to(keys, a, b, i);
    }
    assert(a =~= b);
}

// ---------------------------------------------------------------------------
// Cleanup runs

/// A video file that a cleanup may delete: its path, its creation time (in
/// nanoseconds since the Unix epoch) and its size in bytes.
#[derive(Debug, Clone)]
pub struct CleanupCandidate {
    pub path: String,
    pub created: i128,
    pub size: u64,
}

pub struct CleanupCandidateView {
    pub path: Seq<char>,
    pub created: i128,
    pub size: u64,
}

impl View for CleanupCandidate {
    type V = CleanupCandidateView;

    open spec fn view(&self) -> CleanupCandidateView {
        CleanupCandidateView { path: self.path@, created: self.created, size: self.size }
    }
}

pub open spec fn candidate_views(c: Seq<CleanupCandidate>) -> Seq<CleanupCandidateView> {
    c.map_values(|x: CleanupCandidate| x@)
}

pub open spec fn candidate_keys(c: Seq<CleanupCandidateView>) -> Seq<i128> {
    c.map_values(|x: CleanupCandidateView| x.created)
}

/// A cleanup candidate from what a directory entry shows: only files whose
/// path is valid UTF-8, ends in `.mp4` and whose creation time is known.
pub fn cleanup_candidate(path: Option<String>, is_file: bool, created: Option<i128>, size: u64) -> (c:
    Option<CleanupCandidate>)
    ensures
        c is Some <==> (is_file && path is Some && ends_with_spec(path->0@, ".mp4"@)
            && created is Some),
        c matches Some(x) ==> x@ == (CleanupCandidateView {
            path: path->0@,
            created: created->0,
            size: size,
        }),
{
    if !is_file {
        return None;
    }
    match path {
        Some(p) => {
            if !is_segment_path(p.as_str()) {
                return None;
            }
            match created {
                Some(t) => Some(CleanupCandidate { path: p, created: t, size }),
                None => None,
            }
        },
        None => None,
    }
}

/// Bytes freed by the deletions that succeeded among the first attempts
/// (`outcomes[j]` tells whether the `j`-th attempt, at `order[j]`, succeeded).
pub open spec fn removed_size(
    c: Seq<CleanupCandidateView>,
    order: Seq<usize>,
    outcomes: Seq<bool>,
) -> nat
    decreases outcomes.len(),
{
    if outcomes.len() == 0 {
        0
    } else {
        removed_size(c, order, outcomes.drop_last()) + if outcomes.last() {
            c[order[outcomes.len() - 1] as int].size as nat
        } else {
            0nat
        }
    }
}

/// Number of deletions that succeeded.
pub open spec fn removed_count(outcomes: Seq<bool>) -> nat
    decreases outcomes.len(),
{
    if outcomes.len() == 0 {
        0
    } else {
        removed_count(outcomes.drop_last()) + if outcomes.last() {
            1nat
        } else {
            0nat
        }
    }
}

/// State of one cleanup run: the candidates in the order in which they go,
/// how far the run got, and what it freed.
pub struct CleanupPlan {
    candidates: Vec<CleanupCandidate>,
    order: Vec<usize>,
    next: usize,
    pending: bool,
    finished: bool,
    outcomes: Vec<bool>,
    deleted_count: u64,
    deleted_size: u64,
}

pub struct CleanupPlanView {
    pub candidates: Seq<CleanupCandidateView>,
    /// Candidate indices, oldest first.
    pub order: Seq<usize>,
    /// Number of candidates handed out for deletion.
    pub next: nat,
    /// The last candidate handed out awaits its outcome.
    pub pending: bool,
    /// The run stopped because enough space is free.
    pub finished: bool,
    pub outcomes: Seq<bool>,
    pub deleted_count: u64,
    pub deleted_size: u64,
}

impl View for CleanupPlan {
    type V = CleanupPlanView;

    closed spec fn view(&self) -> CleanupPlanView {
        CleanupPlanView {
            candidates: candidate_views(self.candidates@),
            order: self.order@,
            next: self.next as nat,
            pending: self.pending,
            finished: self.finished,
            outcomes: self.outcomes@,
            deleted_count: self.deleted_count,
            deleted_size: self.deleted_size,
        }
    }
}

/// A consistent cleanup run: candidates go oldest first, every candidate
/// handed out either awaits its outcome or has one, and the totals count the
/// deletions that succeeded.
pub open spec fn plan_wf(v: CleanupPlanView) -> bool {
    &&& stable_sorted_by(candidate_keys(v.candidates), v.order)
    &&& v.next <= v.order.len()
    &&& v.outcomes.len() + (if v.pending {
        1nat
    } else {
        0nat
    }) == v.next
    &&& v.deleted_size == removed_size(v.candidates, v.order, v.outcomes)
    &&& v.deleted_count == removed_count(v.outcomes)
}

/// Whether the run would hand out another candidate.
pub open spec fn has_next_spec(v: CleanupPlanView) -> bool {
    !v.finished && !v.pending && v.next < v.order.len()
}

impl CleanupPlan {
    /// A run over `candidates` that has not deleted anything yet.
    pub fn new(candidates: Vec<CleanupCandidate>) -> (p: Self)
        ensures
            plan_wf(p@),
            p@.candidates == candidate_views(candidates@),
            p@.next == 0,
            !p@.pending,
            !p@.finished,
            p@.outcomes == Seq::<bool>::empty(),
    {
        let mut keys: Vec<i128> = Vec::new();
        let mut i: usize = 0;
        while i < candidates.len()
            invariant
                i <= candidates@.len(),
                keys@ == candidate_keys(candidate_views(candidates@)).take(i as int),
            decreases candidates@.len() - i,
        {
            keys.push(candidates[i].created);
            i = i + 1;
            assert(keys@ =~= candidate_keys(candidate_views(candidates@)).take(i as int));
        }
        assert(keys@ =~= candidate_keys(candidate_views(candidates@)));
        let order = oldest_first(&keys);
        let p = CleanupPlan {
            candidates,
            order,
            next: 0,
            pending: false,
            finished: false,
            outcomes: Vec::new(),
            deleted_count: 0,
            deleted_size: 0,
        };
        assert(p@.outcomes =~= Seq::<bool>::empty());
        p
    }

    /// Whether the run would hand out another candidate.
    pub fn has_next(&self) -> (b: bool)
        requires
            plan_wf(self@),
        ensures
            b == has_next_spec(self@),
    {
        !self.finished && !self.pending && self.next < self.order.len()
    }

    /// The next step of the run, given whether enough space is free now: stop
    /// when it is, else hand out the oldest candidate not handed out yet.
    /// Without a next candidate the run is left as it is.
    pub fn step(&mut self, has_space: bool) -> (r: Option<usize>)
        requires
            plan_wf(old(self)@),
        ensures
            plan_wf(final(self)@),
            !has_next_spec(old(self)@) ==> (r is None && final(self)@ == old(self)@),
            has_next_spec(old(self)@) && has_space ==> (r is None && final(self)@ == (CleanupPlanView {
                finished: true,
                ..old(self)@
            })),
            has_next_spec(old(self)@) && !has_space ==> (r == Some(
                old(self)@.order[old(self)@.next as int],
            ) && final(self)@ == (CleanupPlanView {
                next: old(self)@.next + 1,
                pending: true,
                ..old(self)@
            })),
    {
        if self.finished || self.pending || self.next >= self.order.len() {
            return None;
        }
        if has_space {
            self.finished = true;
            return None;
        }
        let c = self.order[self.next];
        self.next = self.next + 1;
        self.pending = true;
        Some(c)
    }

    /// Records whether deleting the candidate handed out last succeeded.
    pub fn record_removal(&mut self, removed: bool)
        requires
            plan_wf(old(self)@),
            old(self)@.pending,
            removed ==> old(self)@.deleted_size + old(self)@.candidates[old(
                self,
            )@.order[old(self)@.next - 1] as int].size <= u64::MAX,
        ensures
            plan_wf(final(self)@),
            final(self)@ == (CleanupPlanView {
                pending: false,
                outcomes: old(self)@.outcomes.push(removed),
                deleted_count: if removed {
                    (old(self)@.deleted_count + 1) as u64
                } else {
                    old(self)@.deleted_count
                },
                deleted_size: if removed {
                    (old(self)@.deleted_size + old(self)@.candidates[old(self)@.order[old(self)@.next
                        - 1] as int].size) as u64
                } else {
                    old(self)@.deleted_size
                },
                ..old(self)@
            }),
    {
        let ghost before = self@;
        let idx = self.order[self.next - 1];
        if removed {
            proof {
                assert(self@.deleted_count == removed_count(self@.outcomes));
                assert(removed_count(self@.outcomes) <= self@.outcomes.len()) by {
                    lemma_removed_count_bound(self@.outcomes);
                }
            }
            self.deleted_count = self.deleted_count + 1;
            self.deleted_size = self.deleted_size + self.candidates[idx].size;
        }
        self.outcomes.push(removed);
        self.pending = false;
        proof {
            let o = self@.outcomes;
            assert(o.drop_last() =~= before.outcomes);
            assert(o.len() - 1 == before.next - 1);
        }
    }

    /// The candidate at index `i`.
    pub fn candidate(&self, i: usize) -> (c: &CleanupCandidate)
        requires
            i < self@.candidates.len(),
        ensures
            c@ == self@.candidates[i as int],
    {
        proof {
            assert(candidate_views(self.candidates@)[i as int] == self.candidates@[i as int]@);
        }
        &self.candidates[i]
    }

    /// Bytes freed so far.
    pub fn deleted_size(&self) -> (n: u64)
        ensures
            n == self@.deleted_size,
    {
        self.deleted_size
    }

    /// Files deleted so far.
    pub fn deleted_count(&self) -> (n: u64)
        ensures
            n == self@.deleted_count,
    {
        self.deleted_count
    }
}

proof fn lemma_removed_count_bound(o: Seq<bool>)
    ensures
        removed_count(o) <= o.len(),
    decreases o.len(),
{
    if o.len() > 0 {
        lemma_removed_count_bound(o.drop_last());
    }
}

/// A cleanup run deletes oldest files first: of two candidates handed out,
/// the earlier one was created no later than the later one.
pub proof fn law_cleanup_oldest_first(v: CleanupPlanView, j1: int, j2: int)
    requires
        plan_wf(v),
        0 <= j1 < j2 < v.next,
    ensures
        v.candidates[v.order[j1] as int].created <= v.candidates[v.order[j2] as int].created,
{
    let keys = candidate_keys(v.candidates);
    let a = v.order[j1] as int;
    let b = v.order[j2] as int;
    assert(keys[a] < keys[b] || (keys[a] == keys[b] && a < b));
}

/// Over a whole cleanup run, the bytes freed are the sizes of the files
/// whose deletion succeeded, the files deleted are their number, and no more
/// files were deleted than were handed out.
pub proof fn law_cleanup_totals(v: CleanupPlanView)
    requires
        plan_wf(v),
    ensures
        v.deleted_size == removed_size(v.candidates, v.order, v.outcomes),
        v.deleted_count == removed_count(v.outcomes),
        v.deleted_count <= v.next,
{
    lemma_removed_count_bound(v.outcomes);
}

/// A run that found enough space hands out nothing more.
pub proof fn law_cleanup_stops_when_space(v: CleanupPlanView)
    requires
        v.finished,
    ensures
        !has_next_spec(v),
{
}

// ---------------------------------------------------------------------------
// The disk manager

/// Disk settings and the counters of past cleanups.
#[derive(Debug)]
pub struct DiskManager {
    config: Config,
    last_cleanup: Option<UtcTime>,
    files_deleted: u64,
}

pub struct DiskManagerView {
    pub config: ConfigView,
    pub last_cleanup: Option<UtcTime>,
    pub files_deleted: u64,
}

impl View for DiskManager {
    type V = DiskManagerView;

    closed spec fn view(&self) -> DiskManagerView {
        DiskManagerView {
            config: self.config@,
            last_cleanup: self.last_cleanup,
            files_deleted: self.files_deleted,
        }
    }
}

/// `a + b` in 64-bit arithmetic that wraps around.
pub open spec fn wrapping_sum(a: u64, b: u64) -> u64 {
    if a + b > u64::MAX {
        (a + b - 0x1_0000_0000_0000_0000) as u64
    } else {
        (a + b) as u64
    }
}

/// What a stream's directory holds, as far as a scan could read it: each entry's
/// path (absent when it is not valid UTF-8), whether it is a file, and its size.
#[derive(Debug, Clone)]
pub struct DirEntryFacts {
    pub path: Option<String>,
    pub is_file: bool,
    pub len: u64,
}

pub struct DirEntryFactsView {
    pub path: Option<Seq<char>>,
    pub is_file: bool,
    pub len: u64,
}

impl View for DirEntryFacts {
    type V = DirEntryFactsView;

    open spec fn view(&self) -> DirEntryFactsView {
        DirEntryFactsView { path: self.path.deep_view(), is_file: self.is_file, len: self.len }
    }
}

pub open spec fn entry_views(e: Seq<DirEntryFacts>) -> Seq<DirEntryFactsView> {
    e.map_values(|x: DirEntryFacts| x@)
}

/// Whether an entry is a recorded segment: a file whose path ends in `.mp4`.
pub open spec fn is_segment_entry(e: DirEntryFactsView) -> bool {
    e.is_file && e.path is Some && ends_with_spec(e.path->0, ".mp4"@)
}

/// Number of segments among the entries.
pub open spec fn segment_count(es: Seq<DirEntryFactsView>) -> nat
    decreases es.len(),
{
    if es.len() == 0 {
        0
    } else {
        segment_count(es.drop_last()) + if is_segment_entry(es.last()) {
            1nat
        } else {
            0nat
        }
    }
}

/// Bytes of the segments among the entries.
pub open spec fn segment_bytes(es: Seq<DirEntryFactsView>) -> nat
    decreases es.len(),
{
    if es.len() == 0 {
        0
    } else {
        segment_bytes(es.drop_last()) + if is_segment_entry(es.last()) {
            es.last().len as nat
        } else {
            0nat
        }
    }
}

/// What a stream's directory holds: its segments, their bytes, and the video
/// time they are estimated to hold (one segment duration each).
#[derive(Debug, Clone)]
pub struct StreamStorageInfo {
    pub stream_id: String,
    pub directory: String,
    pub total_files: u64,
    pub total_size: u64,
    /// Seconds.
    pub estimated_duration: u64,
}

pub struct StreamStorageInfoView {
    pub stream_id: Seq<char>,
    pub directory: Seq<char>,
    pub total_files: u64,
    pub total_size: u64,
    pub estimated_duration: u64,
}

impl View for StreamStorageInfo {
    type V = StreamStorageInfoView;

    open spec fn view(&self) -> StreamStorageInfoView {
        StreamStorageInfoView {
            stream_id: self.stream_id@,
            directory: self.directory@,
            total_files: self.total_files,
            total_size: self.total_size,
            estimated_duration: self.estimated_duration,
        }
    }
}

/// The storage report of stream `id` whose directory lists `es`.
pub open spec fn stream_storage_spec(
    c: ConfigView,
    id: Seq<char>,
    es: Seq<DirEntryFactsView>,
) -> StreamStorageInfoView {
    StreamStorageInfoView {
        stream_id: id,
        directory: stream_output_dir(c, id),
        total_files: segment_count(es) as u64,
        total_size: segment_bytes(es) as u64,
        estimated_duration: (segment_count(es) * c.segment_duration) as u64,
    }
}

/// What a scan read of each stream's directory (`None`: no such directory).
pub open spec fn listing_views(ls: Seq<Option<Vec<DirEntryFacts>>>) -> Seq<
    Option<Seq<DirEntryFactsView>>,
> {
    ls.map_values(|l: Option<Vec<DirEntryFacts>>| match l {
        Some(v) => Some(entry_views(v@)),
        None => None,
    })
}

/// The storage reports of the streams `ids` whose directory exists, in order,
/// where `ls[i]` is what the directory of `ids[i]` lists.
pub open spec fn storage_reports(
    c: ConfigView,
    ids: Seq<Seq<char>>,
    ls: Seq<Option<Seq<DirEntryFactsView>>>,
) -> Seq<StreamStorageInfoView>
    decreases ls.len(),
{
    if ls.len() == 0 {
        seq![]
    } else {
        let rest = storage_reports(c, ids.drop_last(), ls.drop_last());
        match ls.last() {
            Some(es) => rest.push(stream_storage_spec(c, ids[ls.len() - 1], es)),
            None => rest,
        }
    }
}

/// Whether every listing's sums fit in 64 bits.
pub open spec fn listings_fit(
    ls: Seq<Option<Seq<DirEntryFactsView>>>,
    segment_duration: u32,
) -> bool {
    forall|i: int|
        0 <= i < ls.len() ==> (#[trigger] ls[i] matches Some(es) ==> summary_fits(
            es,
            segment_duration,
        ))
}

proof fn lemma_segment_count_bound(es: Seq<DirEntryFactsView>)
    ensures
        segment_count(es) <= es.len(),
    decreases es.len(),
{
    if es.len() > 0 {
        lemma_segment_count_bound(es.drop_last());
    }
}

proof fn lemma_segment_prefix(es: Seq<DirEntryFactsView>, i: nat)
    requires
        i <= es.len(),
    ensures
        segment_count(es.take(i as int)) <= segment_count(es),
        segment_bytes(es.take(i as int)) <= segment_bytes(es),
    decreases es.len(),
{
    if i < es.len() {
        lemma_segment_prefix(es.drop_last(), i);
        assert(es.drop_last().take(i as int) =~= es.take(i as int));
    } else {
        assert(es.take(i as int) =~= es);
    }
}

/// Whether summing an entry list stays within 64 bits.
pub open spec fn summary_fits(es: Seq<DirEntryFactsView>, segment_duration: u32) -> bool {
    segment_bytes(es) <= u64::MAX && segment_count(es) * segment_duration <= u64::MAX
}

impl DiskManager {
    /// A manager that has not cleaned up yet.
    pub fn new(config: Config) -> (d: Self)
        ensures
            d@.config == config@,
            d@.last_cleanup is None,
            d@.files_deleted == 0,
    {
        DiskManager { config, last_cleanup: None, files_deleted: 0 }
    }

    /// The settings the manager was made with.
    pub fn get_config(&self) -> (c: &Config)
        ensures
            c@ == self@.config,
    {
        &self.config
    }

    /// Files deleted by all cleanups so far.
    pub fn get_files_deleted(&self) -> (n: u64)
        ensures
            n == self@.files_deleted,
    {
        self.files_deleted
    }

    /// When the last cleanup ended, if there was one.
    pub fn get_last_cleanup(&self) -> (t: Option<UtcTime>)
        ensures
            t == self@.last_cleanup,
    {
        self.last_cleanup
    }

    /// Counts `n` more deleted files; the counter wraps around at 2^64.
    pub fn add_files_deleted(&mut self, n: u64)
        ensures
            final(self)@ == (DiskManagerView {
                files_deleted: wrapping_sum(old(self)@.files_deleted, n),
                ..old(self)@
            }),
    {
        if self.files_deleted > u64::MAX - n {
            self.files_deleted = self.files_deleted - (u64::MAX - n) - 1;
        } else {
            self.files_deleted = self.files_deleted + n;
        }
    }

    /// Notes that a cleanup ended at `now`.
    pub fn finish_cleanup(&mut self, now: UtcTime)
        ensures
            final(self)@ == (DiskManagerView { last_cleanup: Some(now), ..old(self)@ }),
    {
        self.last_cleanup = Some(now);
    }

    /// Closes a cleanup run at `now`: counts the files the run deleted and
    /// gives back the bytes it freed.
    pub fn finish_cleanup_run(&mut self, plan: &CleanupPlan, now: UtcTime) -> (bytes: u64)
        ensures
            bytes == plan@.deleted_size,
            final(self)@ == (DiskManagerView {
                files_deleted: wrapping_sum(old(self)@.files_deleted, plan@.deleted_count),
                last_cleanup: Some(now),
                ..old(self)@
            }),
    {
        self.add_files_deleted(plan.deleted_count());
        self.finish_cleanup(now);
        plan.deleted_size()
    }

    /// Closes a cleanup run that stopped on an error: the files it deleted so
    /// far are counted, and the time of the last cleanup stays as it was.
    pub fn abort_cleanup_run(&mut self, plan: &CleanupPlan)
        ensures
            final(self)@ == (DiskManagerView {
                files_deleted: wrapping_sum(old(self)@.files_deleted, plan@.deleted_count),
                ..old(self)@
            }),
    {
        self.add_files_deleted(plan.deleted_count());
    }

    /// The directories a cleanup searches: the output directory, then the
    /// directory of each enabled stream.
    pub fn cleanup_directories(&self) -> (dirs: Vec<String>)
        ensures
            dirs@.map_values(|s: String| s@) == directories_spec(self@.config),
    {
        self.config.directories_to_create()
    }

    /// Ids of the streams whose storage is reported together: the enabled
    /// streams, in configuration order.
    pub fn reported_stream_ids(&self) -> (ids: Vec<String>)
        ensures
            ids@.map_values(|s: String| s@) == enabled_streams(self@.config.streams).map_values(
                |s: StreamConfigView| s.id,
            ),
    {
        let enabled = self.config.get_enabled_streams();
        let ghost ev = enabled@.map_values(|s: &StreamConfig| s@);
        let ghost want = ev.map_values(|s: StreamConfigView| s.id);
        let mut ids: Vec<String> = Vec::new();
        let mut i: usize = 0;
        while i < enabled.len()
            invariant
                i <= enabled@.len(),
                ev == enabled@.map_values(|s: &StreamConfig| s@),
                want == ev.map_values(|s: StreamConfigView| s.id),
                ids@.map_values(|s: String| s@) == want.take(i as int),
            decreases enabled@.len() - i,
        {
            let id = enabled[i].id.clone();
            let ghost before = ids@.map_values(|s: String| s@);
            ids.push(id);
            assert(ids@.map_values(|s: String| s@) =~= before.push(id@));
            assert(want.take(i + 1) =~= want.take(i as int).push(want[i as int]));
            i = i + 1;
        }
        assert(want.take(i as int) =~= want);
        ids
    }

    /// The storage reports of the streams `ids` whose directory exists, in
    /// order: `listings[i]` is what the directory of `ids[i]` lists, or
    /// `None` when it does not exist. `None` when some report's sums would
    /// not fit in 64 bits.
    pub fn collect_streams_storage(
        &self,
        ids: &Vec<String>,
        listings: &Vec<Option<Vec<DirEntryFacts>>>,
    ) -> (r: Option<Vec<StreamStorageInfo>>)
        requires
            ids@.len() == listings@.len(),
        ensures
            r is None <==> !listings_fit(listing_views(listings@), self@.config.segment_duration),
            r matches Some(v) ==> v@.map_values(|x: StreamStorageInfo| x@) == storage_reports(
                self@.config,
                ids@.map_values(|s: String| s@),
                listing_views(listings@),
            ),
    {
        let ghost idv = ids@.map_values(|s: String| s@);
        let ghost lv = listing_views(listings@);
        let mut out: Vec<StreamStorageInfo> = Vec::new();
        let mut i: usize = 0;
        while i < listings.len()
            invariant
                i <= listings@.len(),
                ids@.len() == listings@.len(),
                idv == ids@.map_values(|s: String| s@),
                lv == listing_views(listings@),
                forall|j: int|
                    0 <= j < i ==> (#[trigger] lv[j] matches Some(es) ==> summary_fits(
                        es,
                        self@.config.segment_duration,
                    )),
                out@.map_values(|x: StreamStorageInfo| x@) == storage_reports(
                    self@.config,
                    idv.take(i as int),
                    lv.take(i as int),
                ),
            decreases listings@.len() - i,
        {
            proof {
                assert(lv.take(i + 1).drop_last() =~= lv.take(i as int));
                assert(idv.take(i + 1).drop_last() =~= idv.take(i as int));
                assert(idv.take(i + 1)[i as int] == ids@[i as int]@);
            }
            match &listings[i] {
                Some(es) => {
                    assert(lv[i as int] == Some(entry_views(es@)));
                    match self.checked_stream_storage(ids[i].as_str(), es) {
                        Some(info) => {
                            let ghost before = out@.map_values(|x: StreamStorageInfo| x@);
                            let ghost iv = info@;
                            out.push(info);
                            assert(out@.map_values(|x: StreamStorageInfo| x@) =~= before.push(iv));
                        },
                        None => {
                            assert(!listings_fit(lv, self@.config.segment_duration)) by {
                                assert(lv[i as int] matches Some(x) && !summary_fits(
                                    x,
                                    self@.config.segment_duration,
                                ));
                            }
                            return None;
                        },
                    }
                },
                None => {
                    assert(lv[i as int] is None);
                },
            }
            i = i + 1;
        }
        assert(lv.take(i as int) =~= lv);
        assert(idv.take(i as int) =~= idv);
        Some(out)
    }

    /// What `summarize_stream_storage` gives, or `None` when its sums would
    /// not fit in 64 bits.
    pub fn checked_stream_storage(&self, stream_id: &str, entries: &Vec<DirEntryFacts>) -> (r: Option<
        StreamStorageInfo,
    >)
        ensures
            r is None <==> !summary_fits(entry_views(entries@), self@.config.segment_duration),
            r matches Some(info) ==> (info.stream_id@ == stream_id@ && info.directory@
                == stream_output_dir(self@.config, stream_id@) && info.total_files == segment_count(
                entry_views(entries@),
            ) && info.total_size == segment_bytes(entry_views(entries@))
                && info.estimated_duration == segment_count(entry_views(entries@))
                * self@.config.segment_duration),
    {
        let ghost es = entry_views(entries@);
        let mut count: u128 = 0;
        let mut bytes: u128 = 0;
        let mut i: usize = 0;
        while i < entries.len()
            invariant
                i <= entries@.len(),
                es == entry_views(entries@),
                count == segment_count(es.take(i as int)),
                bytes == segment_bytes(es.take(i as int)),
                count <= i,
                bytes <= i * u64::MAX,
            decreases entries@.len() - i,
        {
            let e = &entries[i];
            proof {
                assert(es.take(i + 1).drop_last() =~= es.take(i as int));
                assert(es.take(i + 1).last() == e@);
            }
            let is_segment = match &e.path {
                Some(p) => e.is_file && is_segment_path(p.as_str()),
                None => false,
            };
            if is_segment {
                count = count + 1;
                bytes = bytes + e.len as u128;
            }
            i = i + 1;
        }
        assert(es.take(i as int) =~= es);
        let seg = self.config.segment_duration as u128;
        proof {
            assert(count * seg <= u64::MAX * u32::MAX) by (nonlinear_arith)
                requires
                    count <= u64::MAX,
                    seg <= u32::MAX,
            ;
        }
        if bytes <= u64::MAX as u128 && count * seg <= u64::MAX as u128 {
            Some(self.summarize_stream_storage(stream_id, entries))
        } else {
            None
        }
    }

    /// What stream `stream_id`'s directory holds, from the entries a scan read
    /// (see `segment_count` and `segment_bytes`).
    pub fn summarize_stream_storage(&self, stream_id: &str, entries: &Vec<DirEntryFacts>) -> (info:
        StreamStorageInfo)
        requires
            segment_bytes(entry_views(entries@)) <= u64::MAX,
            segment_count(entry_views(entries@)) * self@.config.segment_duration <= u64::MAX,
        ensures
            info.stream_id@ == stream_id@,
            info.directory@ == stream_output_dir(self@.config, stream_id@),
            info.total_files == segment_count(entry_views(entries@)),
            info.total_size == segment_bytes(entry_views(entries@)),
            info.estimated_duration == segment_count(entry_views(entries@))
                * self@.config.segment_duration,
    {
        let ghost es = entry_views(entries@);
        let seg = self.config.segment_duration as u64;
        let mut total_files: u64 = 0;
        let mut total_size: u64 = 0;
        let mut total_duration: u64 = 0;
        let mut i: usize = 0;
        while i < entries.len()
            invariant
                i <= entries@.len(),
                es == entry_views(entries@),
                seg == self@.config.segment_duration,
                segment_bytes(es) <= u64::MAX,
                segment_count(es) * seg <= u64::MAX,
                total_files == segment_count(es.take(i as int)),
                total_size == segment_bytes(es.take(i as int)),
                total_duration == total_files * seg,
            decreases entries@.len() - i,
        {
            let e = &entries[i];
            proof {
                assert(es.take(i + 1).drop_last() =~= es.take(i as int));
                assert(es.take(i + 1).last() == e@);
                lemma_segment_prefix(es, (i + 1) as nat);
                lemma_segment_count_bound(es);
                assert(es.len() == entries@.len());
            }
            let is_segment = match &e.path {
                Some(p) => e.is_file && is_segment_path(p.as_str()),
                None => false,
            };
            if is_segment {
                proof {
                    assert(segment_count(es.take(i + 1)) == total_files + 1);
                    assert((total_files + 1) * seg <= segment_count(es) * seg) by (nonlinear_arith)
                        requires
                            total_files + 1 <= segment_count(es),
                    ;
                    assert((total_files + 1) * seg == total_files * seg + seg) by (nonlinear_arith);
                }
                total_files = total_files + 1;
                total_size = total_size + e.len;
                total_duration = total_duration + seg;
            }
            i = i + 1;
        }
        assert(es.take(i as int) =~= es);
        StreamStorageInfo {
            stream_id: String::from_str(stream_id),
            directory: self.config.get_stream_output_dir(stream_id),
            total_files,
            total_size,
            estimated_duration: total_duration,
        }
    }
}

} // verus!
