//! What a log segment is opened with.

use vstd::prelude::*;

verus! {

/// Where a segment's files lie, the offset it starts at, how large it may
/// grow and how many log bytes lie between two index entries.
#[derive(Debug, Clone)]
pub struct SegmentConfig {
    pub base_dir: String,
    pub base_offset: u64,
    pub segment_bytes: usize,
    pub index_interval_bytes: usize,
}

/// How many index entries a segment's index file has room for: one per
/// interval of the segment's bytes, and one more.
pub open spec fn index_entries(opts: SegmentConfig) -> int {
    opts.segment_bytes as int / opts.index_interval_bytes as int + 1
}

/// The size of a segment's index files, in bytes.
pub open spec fn index_file_size(opts: SegmentConfig) -> int {
    index_entries(opts) * 16
}

/// The index files of the segment can be sized: the interval is positive
/// and the size fits in memory.
pub open spec fn index_sizable(opts: SegmentConfig) -> bool {
    &&& opts.index_interval_bytes > 0
    &&& index_file_size(opts) <= usize::MAX
}

impl SegmentConfig {
    /// A segment at `base_offset` under `base_dir`, with an index entry
    /// for every 4096 log bytes.
    pub fn new(base_dir: String, base_offset: u64, segment_bytes: usize) -> (r: Self)
        ensures
            r.base_dir@ == base_dir@,
            r.base_offset == base_offset,
            r.segment_bytes == segment_bytes,
            r.index_interval_bytes == 4096,
    {
        SegmentConfig { base_dir, base_offset, segment_bytes, index_interval_bytes: 4096 }
    }

    /// How many entries the index files hold.
    pub fn max_index_entries(&self) -> (r: usize)
        requires
            index_sizable(*self),
        ensures
            r == index_entries(*self),
    {
        self.segment_bytes / self.index_interval_bytes + 1
    }

    /// The length the index files are given, in bytes.
    pub fn index_file_size(&self) -> (r: usize)
        requires
            index_sizable(*self),
        ensures
            r == index_file_size(*self),
    {
        self.max_index_entries() * 16
    }
}

} // verus!
