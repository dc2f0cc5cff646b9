//! A snapshot of a partition: its segments in order of base offset, the
//! offset the log ends at, the high watermark, and what the replicas have
//! acknowledged. Reads are served from a snapshot; the actor that owns the
//! partition publishes a new one after every change.

use vstd::prelude::*;
use crate::protocol::error_codes::ErrorCode;
use crate::protocol::fetch::{FetchPartition, PartitionResponse};
use crate::replica::ReplicaMetadata;
use crate::segment::metadata::{SegmentView, fetch_result, batches_in, batches_view, size_in_range};
use crate::storage::record_batch::{RecordBatch, RecordBatchView};
use crate::wire::bytes_or_zero;

verus! {

#[derive(Debug, Clone)]
pub struct PartitionState {
    pub segments: Vec<SegmentView>,
    pub log_end_offset: u64,
    pub high_watermark: u64,
    pub replicas: Vec<ReplicaMetadata>,
}

/// Segments follow one another in nondecreasing order of base offset.
pub open spec fn segments_ordered(segs: Seq<SegmentView>) -> bool {
    forall|i: int, j: int| 0 <= i <= j < segs.len() ==> segs[i].base_offset <= segs[j].base_offset
}

/// The first segment from `i` on whose base offset lies above `offset`,
/// or the number of segments if there is none.
pub open spec fn first_above(segs: Seq<SegmentView>, offset: u64, i: int) -> int
    decreases segs.len() - i,
{
    if i >= segs.len() {
        segs.len() as int
    } else if segs[i].base_offset > offset {
        i
    } else {
        first_above(segs, offset, i + 1)
    }
}

/// The segment that holds `offset`: the last one whose base offset is at
/// most `offset`.
pub open spec fn segment_for(segs: Seq<SegmentView>, offset: u64) -> int {
    first_above(segs, offset, 0) - 1
}

/// The batches of every segment, in order, `logs[i]` being the content of
/// segment `i`'s log; `None` where a segment's log cannot be read whole.
pub open spec fn all_batches(segs: Seq<SegmentView>, logs: Seq<Vec<u8>>, n: int) -> Option<
    Seq<RecordBatchView>,
>
    decreases n,
{
    if n <= 0 {
        Some(Seq::empty())
    } else {
        match (all_batches(segs, logs, n - 1), batches_in(
            bytes_or_zero(logs[n - 1]@, 0, segs[n - 1].size as nat),
            0,
        )) {
            (Some(front), Some(last)) => Some(front + last),
            _ => None,
        }
    }
}

/// The first replica from `i` on with the given id, or the number of
/// replicas if none has it.
pub open spec fn first_replica(rs: Seq<ReplicaMetadata>, replica_id: u32, i: int) -> int
    decreases rs.len() - i,
{
    if i >= rs.len() {
        rs.len() as int
    } else if rs[i].replica_id == replica_id {
        i
    } else {
        first_replica(rs, replica_id, i + 1)
    }
}

/// The least log end offset among the first `n` replicas.
pub open spec fn min_leo(rs: Seq<ReplicaMetadata>, n: int) -> u64
    decreases n,
{
    if n <= 1 {
        rs[0].log_end_offset
    } else if rs[n - 1].log_end_offset < min_leo(rs, n - 1) {
        rs[n - 1].log_end_offset
    } else {
        min_leo(rs, n - 1)
    }
}

/// The larger of two offsets.
pub open spec fn max_offset(a: u64, b: u64) -> u64 {
    if a >= b {
        a
    } else {
        b
    }
}

/// `new` is `old` after replica `replica_id` acknowledged the log up to
/// `leo`: the first replica with that id keeps the larger of its offset
/// and `leo`, the others stay as they were, and the high watermark becomes
/// the least offset among the replicas, or stays when there are none.
pub open spec fn acked(old: PartitionState, new: PartitionState, replica_id: u32, leo: u64) -> bool {
    &&& new.segments@ == old.segments@
    &&& new.log_end_offset == old.log_end_offset
    &&& new.replicas@.len() == old.replicas@.len()
    &&& forall|i: int|
        0 <= i < new.replicas@.len() ==> {
            &&& #[trigger] new.replicas@[i].replica_id == old.replicas@[i].replica_id
            &&& new.replicas@[i].broker_id@ == old.replicas@[i].broker_id@
            &&& new.replicas@[i].log_end_offset == if i == first_replica(old.replicas@, replica_id, 0) {
                max_offset(old.replicas@[i].log_end_offset, leo)
            } else {
                old.replicas@[i].log_end_offset
            }
        }
    &&& new.high_watermark == if old.replicas@.len() > 0 {
        min_leo(new.replicas@, new.replicas@.len() as int)
    } else {
        old.high_watermark
    }
}

/// If the segments before `p` start at or below `offset` and the one at
/// `p`, if any, above it, the search from any `i` up to `p` stops at `p`.
proof fn lemma_first_above_at(segs: Seq<SegmentView>, offset: u64, i: int, p: int)
    requires
        0 <= i <= p <= segs.len(),
        forall|k: int| 0 <= k < p ==> segs[k].base_offset <= offset,
        p < segs.len() ==> segs[p].base_offset > offset,
    ensures
        first_above(segs, offset, i) == p,
    decreases p - i,
{
    if i < p {
        lemma_first_above_at(segs, offset, i + 1, p);
    }
}

proof fn lemma_first_replica_bounds(rs: Seq<ReplicaMetadata>, replica_id: u32, i: int)
    requires
        0 <= i <= rs.len(),
    ensures
        i <= first_replica(rs, replica_id, i) <= rs.len(),
        first_replica(rs, replica_id, i) < rs.len() ==> rs[first_replica(rs, replica_id, i)].replica_id
            == replica_id,
        forall|k: int| i <= k < first_replica(rs, replica_id, i) ==> rs[k].replica_id != replica_id,
    decreases rs.len() - i,
{
    if i < rs.len() && rs[i].replica_id != replica_id {
        lemma_first_replica_bounds(rs, replica_id, i + 1);
    }
}

impl PartitionState {
    /// A partition with no segments yet, nothing written, and these replicas.
    pub fn new(replicas: Vec<ReplicaMetadata>) -> (r: Self)
        ensures
            r.segments@.len() == 0,
            r.log_end_offset == 0,
            r.high_watermark == 0,
            r.replicas@ == replicas@,
    {
        PartitionState { segments: Vec::new(), log_end_offset: 0, high_watermark: 0, replicas }
    }

    /// A partition over these segments, written and committed up to
    /// `high_watermark`, with no replicas.
    pub fn with_segments(segments: Vec<SegmentView>, high_watermark: u64) -> (r: Self)
        ensures
            r.segments@ == segments@,
            r.log_end_offset == high_watermark,
            r.high_watermark == high_watermark,
            r.replicas@.len() == 0,
    {
        PartitionState {
            segments,
            log_end_offset: high_watermark,
            high_watermark,
            replicas: Vec::new(),
        }
    }

    /// The same partition with new segments, log end offset and high
    /// watermark; the replicas stay.
    pub fn consume(self, segments: Vec<SegmentView>, log_end_offset: u64, high_watermark: u64) -> (r: Self)
        ensures
            r.segments@ == segments@,
            r.log_end_offset == log_end_offset,
            r.high_watermark == high_watermark,
            r.replicas@ == self.replicas@,
    {
        PartitionState { segments, log_end_offset, high_watermark, ..self }
    }

    /// Which segment holds `fetch_offset`: the last one whose base offset is
    /// at most it, found by binary search.
    pub fn segment_index(&self, fetch_offset: u64) -> (r: usize)
        requires
            segments_ordered(self.segments@),
            self.segments@.len() > 0,
            self.segments@[0].base_offset <= fetch_offset,
        ensures
            r == segment_for(self.segments@, fetch_offset),
            r < self.segments@.len(),
    {
        let len = self.segments.len();
        let mut lo: usize = 0;
        let mut hi: usize = len;
        while lo < hi
            invariant
                len == self.segments@.len(),
                segments_ordered(self.segments@),
                0 <= lo <= hi <= len,
                forall|k: int| 0 <= k < lo ==> self.segments@[k].base_offset <= fetch_offset,
                forall|k: int| hi <= k < len ==> self.segments@[k].base_offset > fetch_offset,
            decreases hi - lo,
        {
            let mid = lo + (hi - lo) / 2;
            if self.segments[mid].base_offset <= fetch_offset {
                assert forall|k: int| 0 <= k <= mid implies self.segments@[k].base_offset
                    <= fetch_offset by {
                    assert(self.segments@[k].base_offset <= self.segments@[mid as int].base_offset);
                }
                lo = mid + 1;
            } else {
                assert forall|k: int| mid <= k < len implies self.segments@[k].base_offset
                    > fetch_offset by {
                    assert(self.segments@[mid as int].base_offset <= self.segments@[k].base_offset);
                }
                hi = mid;
            }
        }
        proof {
            lemma_first_above_at(self.segments@, fetch_offset, 0, lo as int);
        }
        lo - 1
    }

    /// Serves a fetch for partition `partition_index` from the segment that
    /// holds the fetch offset, `log` and `index` being that segment's files;
    /// `None` where there is no such segment (none starts at or below the
    /// offset) or reading its batches would overflow. The response carries
    /// the high watermark, and the log end offset as the log start offset.
    pub fn fetch_checked(&self, partition_index: u32, fetch_req: FetchPartition, log: &[u8], index: &[u8]) -> (r: Option<PartitionResponse>)
        requires
            segments_ordered(self.segments@),
            self.segments@.len() > 0 && self.segments@[0].base_offset <= fetch_req.fetch_offset ==> ({
                let seg = self.segments@[segment_for(self.segments@, fetch_req.fetch_offset)];
                &&& index@.len() >= 16 * seg.index_count
                &&& size_in_range(seg.size as int)
            }),
        ensures
            self.segments@.len() == 0 || self.segments@[0].base_offset > fetch_req.fetch_offset
                ==> r is None,
            self.segments@.len() > 0 && self.segments@[0].base_offset <= fetch_req.fetch_offset
                ==> match fetch_result(
                self.segments@[segment_for(self.segments@, fetch_req.fetch_offset)],
                log@,
                index@,
                fetch_req.fetch_offset,
                fetch_req.partition_max_bytes,
            ) {
                None => r is None,
                Some(v) => r matches Some(res) && {
                    &&& res.partition_index == partition_index
                    &&& res.error_code == ErrorCode::NoError
                    &&& res.high_watermark == self.high_watermark
                    &&& res.log_start_offset == self.log_end_offset
                    &&& batches_view(res.records@) == v
                },
            },
    {
        if self.segments.len() == 0 || self.segments[0].base_offset > fetch_req.fetch_offset {
            return None;
        }
        let idx = self.segment_index(fetch_req.fetch_offset);
        match self.segments[idx].fetch_checked(log, index, fetch_req) {
            None => None,
            Some(records) => Some(
                PartitionResponse {
                    partition_index,
                    error_code: ErrorCode::NoError,
                    high_watermark: self.high_watermark,
                    log_start_offset: self.log_end_offset,
                    records,
                },
            ),
        }
    }

    /// Serves a fetch for partition `partition_index` from the segment that
    /// holds the fetch offset, `log` and `index` being that segment's files.
    /// The response carries the high watermark, and the log end offset as
    /// the log start offset.
    pub fn fetch(&self, partition_index: u32, fetch_req: FetchPartition, log: &[u8], index: &[u8]) -> (r: PartitionResponse)
        requires
            segments_ordered(self.segments@),
            self.segments@.len() > 0,
            self.segments@[0].base_offset <= fetch_req.fetch_offset,
            ({
                let seg = self.segments@[segment_for(self.segments@, fetch_req.fetch_offset)];
                &&& index@.len() >= 16 * seg.index_count
                &&& size_in_range(seg.size as int)
                &&& fetch_result(
                    seg,
                    log@,
                    index@,
                    fetch_req.fetch_offset,
                    fetch_req.partition_max_bytes,
                ) is Some
            }),
        ensures
            r.partition_index == partition_index,
            r.error_code == ErrorCode::NoError,
            r.high_watermark == self.high_watermark,
            r.log_start_offset == self.log_end_offset,
            batches_view(r.records@) == fetch_result(
                self.segments@[segment_for(self.segments@, fetch_req.fetch_offset)],
                log@,
                index@,
                fetch_req.fetch_offset,
                fetch_req.partition_max_bytes,
            ).unwrap(),
    {
        match self.fetch_checked(partition_index, fetch_req, log, index) {
            Some(res) => res,
            None => {
                proof {
                    assert(false);
                }
                PartitionResponse::error(partition_index, ErrorCode::NoError)
            },
        }
    }

    /// Every batch of every segment, in order, `logs[i]` being the content
    /// of segment `i`'s log; the response's other fields are zero.
    pub fn fetch_all(&self, logs: &[Vec<u8>]) -> (r: PartitionResponse)
        requires
            logs@.len() == self.segments@.len(),
            all_batches(self.segments@, logs@, self.segments@.len() as int) is Some,
        ensures
            r.partition_index == 0,
            r.error_code == ErrorCode::NoError,
            r.high_watermark == 0,
            r.log_start_offset == 0,
            batches_view(r.records@) == all_batches(
                self.segments@,
                logs@,
                self.segments@.len() as int,
            ).unwrap(),
    {
        let mut records: Vec<RecordBatch> = Vec::new();
        let n = self.segments.len();
        let mut i: usize = 0;
        while i < n
            invariant
                n == self.segments@.len(),
                logs@.len() == n,
                i <= n,
                all_batches(self.segments@, logs@, n as int) is Some,
                all_batches(self.segments@, logs@, i as int) is Some,
                batches_view(records@) == all_batches(self.segments@, logs@, i as int).unwrap(),
            decreases n - i,
        {
            proof {
                lemma_all_batches_prefix(self.segments@, logs@, n as int, i + 1);
            }
            let mut batches = self.segments[i].fetch_all(logs[i].as_slice());
            let ghost before = records@;
            let ghost added = batches@;
            records.append(&mut batches);
            assert(batches_view(records@) =~= batches_view(before) + batches_view(added));
            i = i + 1;
        }
        PartitionResponse {
            partition_index: 0,
            error_code: ErrorCode::NoError,
            high_watermark: 0,
            log_start_offset: 0,
            records,
        }
    }

    /// Takes the acknowledgement of replica `replica_id` that it holds the
    /// log up to `leo`: the first replica with that id keeps the larger of
    /// its offset and `leo`, and the high watermark becomes the least offset
    /// among the replicas; with no replicas it stays.
    pub fn ack_replica(self, replica_id: u32, leo: u64) -> (r: Self)
        ensures
            acked(self, r, replica_id, leo),
    {
        let PartitionState { segments, log_end_offset, high_watermark, replicas } = self;
        let mut replicas = replicas;
        let ghost old_replicas = replicas@;
        let n = replicas.len();
        proof {
            lemma_first_replica_bounds(old_replicas, replica_id, 0);
        }
        let mut i: usize = 0;
        while i < n && replicas[i].replica_id != replica_id
            invariant
                n == replicas@.len(),
                replicas@ == old_replicas,
                i <= n,
                first_replica(old_replicas, replica_id, i as int) == first_replica(
                    old_replicas,
                    replica_id,
                    0,
                ),
            decreases n - i,
        {
            i = i + 1;
        }
        if i < n {
            let current = &replicas[i];
            let updated = ReplicaMetadata {
                broker_id: current.broker_id.clone(),
                replica_id: current.replica_id,
                log_end_offset: if current.log_end_offset >= leo {
                    current.log_end_offset
                } else {
                    leo
                },
            };
            replicas.set(i, updated);
        }
        let mut hw = high_watermark;
        if n > 0 {
            let mut min = replicas[0].log_end_offset;
            let mut k: usize = 1;
            while k < n
                invariant
                    n == replicas@.len(),
                    1 <= k <= n,
                    min == min_leo(replicas@, k as int),
                decreases n - k,
            {
                if replicas[k].log_end_offset < min {
                    min = replicas[k].log_end_offset;
                }
                k = k + 1;
            }
            hw = min;
        }
        PartitionState { segments, log_end_offset, high_watermark: hw, replicas }
    }
}

/// The least log end offset among the first `n` replicas is at most each
/// of theirs, and is one of them.
pub proof fn lemma_min_leo_is_least(rs: Seq<ReplicaMetadata>, n: int)
    requires
        0 < n <= rs.len(),
    ensures
        forall|i: int| 0 <= i < n ==> min_leo(rs, n) <= #[trigger] rs[i].log_end_offset,
        exists|i: int| 0 <= i < n && min_leo(rs, n) == #[trigger] rs[i].log_end_offset,
    decreases n,
{
    if n > 1 {
        lemma_min_leo_is_least(rs, n - 1);
        if rs[n - 1].log_end_offset < min_leo(rs, n - 1) {
            assert(min_leo(rs, n) == rs[n - 1].log_end_offset);
        } else {
            let k = choose|i: int| 0 <= i < n - 1 && min_leo(rs, n - 1) == #[trigger] rs[i].log_end_offset;
            assert(min_leo(rs, n) == rs[k].log_end_offset);
        }
    } else {
        assert(min_leo(rs, n) == rs[0].log_end_offset);
    }
}

/// An acknowledgement never moves a replica's offset back, and when the
/// high watermark stood at the least replica offset, it does not move the
/// high watermark back either.
pub proof fn lemma_ack_never_moves_back(old: PartitionState, new: PartitionState, replica_id: u32, leo: u64)
    requires
        acked(old, new, replica_id, leo),
    ensures
        forall|i: int|
            0 <= i < old.replicas@.len() ==> old.replicas@[i].log_end_offset
                <= #[trigger] new.replicas@[i].log_end_offset,
        old.replicas@.len() > 0 && old.high_watermark == min_leo(old.replicas@, old.replicas@.len() as int)
            ==> old.high_watermark <= new.high_watermark,
{
    let n = old.replicas@.len() as int;
    assert forall|i: int| 0 <= i < n implies old.replicas@[i].log_end_offset
        <= #[trigger] new.replicas@[i].log_end_offset by {
        assert(new.replicas@[i].replica_id == old.replicas@[i].replica_id);
    }
    if n > 0 {
        lemma_min_leo_is_least(old.replicas@, n);
        lemma_min_leo_is_least(new.replicas@, n);
        let k = choose|i: int| 0 <= i < n && min_leo(new.replicas@, n) == #[trigger] new.replicas@[i].log_end_offset;
        assert(old.replicas@[k].log_end_offset <= new.replicas@[k].log_end_offset);
        assert(min_leo(old.replicas@, n) <= old.replicas@[k].log_end_offset);
    }
}

/// A prefix of readable segments is readable.
proof fn lemma_all_batches_prefix(segs: Seq<SegmentView>, logs: Seq<Vec<u8>>, n: int, m: int)
    requires
        0 <= m <= n,
        all_batches(segs, logs, n) is Some,
    ensures
        all_batches(segs, logs, m) is Some,
    decreases n - m,
{
    if m < n {
        lemma_all_batches_prefix(segs, logs, n, m + 1);
    }
}

} // verus!
