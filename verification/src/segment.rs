//! Per-chunk broadcaster state: a coalescing change flag, the latched
//! last-published snapshot, and the rate-limit deadline of the coalescer.
//!
//! The mutation path only raises the change flag; a background task per
//! chunk waits for the flag, sleeps until `next_publish_at`, and then calls
//! [`Segment::poll`], which publishes the current chunk bytes exactly when
//! they differ from the latched snapshot and pushes the deadline
//! [`PUBLISH_INTERVAL_MS`] ahead.

use vstd::prelude::*;

use crate::chunk::bytes_equal;
use crate::chunk::copy_bytes;
use crate::CHUNK_BYTES;
use crate::PUBLISH_INTERVAL_MS;

verus! {

/// Mathematical model of one segment broadcaster.
pub ghost struct SegmentView {
    pub changed: bool,
    pub latched: Seq<u8>,
    pub next_publish_at: u64,
}

/// Whether a poll of a segment in state `s` while the chunk holds
/// `current` publishes a new snapshot.
pub open spec fn poll_publishes(s: SegmentView, current: Seq<u8>) -> bool {
    s.latched != current
}

/// The segment state after a poll at `now_ms` while the chunk holds
/// `current`: a publish latches the bytes and moves the deadline ahead; a
/// skipped publish leaves both, and either way the change flag is consumed.
pub open spec fn poll_next(s: SegmentView, now_ms: u64, current: Seq<u8>) -> SegmentView {
    if poll_publishes(s, current) {
        SegmentView {
            changed: false,
            latched: current,
            next_publish_at: (now_ms + PUBLISH_INTERVAL_MS) as u64,
        }
    } else {
        SegmentView { changed: false, ..s }
    }
}

/// One chunk's broadcaster: change notification plus latched snapshot.
pub struct Segment {
    pub changed: bool,
    pub latched: Vec<u8>,
    pub next_publish_at: u64,
}

impl View for Segment {
    type V = SegmentView;

    open spec fn view(&self) -> SegmentView {
        SegmentView {
            changed: self.changed,
            latched: self.latched@,
            next_publish_at: self.next_publish_at,
        }
    }
}

impl Default for Segment {
    /// A broadcaster latched to an all-zero chunk.
    fn default() -> (s: Segment)
        ensures
            s.wf(),
            s@ == (SegmentView {
                changed: false,
                latched: Seq::new(CHUNK_BYTES as nat, |i: int| 0u8),
                next_publish_at: 0u64,
            }),
    {
        Segment { changed: false, latched: crate::chunk::zero_bytes(CHUNK_BYTES), next_publish_at: 0 }
    }
}

impl Segment {
    pub open spec fn wf(self) -> bool {
        self@.latched.len() == CHUNK_BYTES
    }

    /// A fresh broadcaster latched to the chunk bytes it was created from.
    pub fn from_bytes(bytes: &Vec<u8>) -> (s: Segment)
        requires
            bytes@.len() == CHUNK_BYTES,
        ensures
            s.wf(),
            s@ == (SegmentView { changed: false, latched: bytes@, next_publish_at: 0u64 }),
    {
        Segment { changed: false, latched: copy_bytes(bytes), next_publish_at: 0 }
    }

    /// Signals that the chunk changed. Repeated signals before the next
    /// poll collapse into one.
    pub fn notify(&mut self)
        ensures
            final(self)@ == (SegmentView { changed: true, ..old(self)@ }),
    {
        self.changed = true;
    }

    /// One wake of the coalescer task, after its rate-limit deadline has
    /// passed: publishes the current chunk bytes iff they differ from the
    /// latched snapshot. Whatever was published before, the latched value
    /// afterwards is the current bytes, so no final state is dropped.
    pub fn poll(&mut self, now_ms: u64, current: &Vec<u8>) -> (published: bool)
        requires
            old(self).wf(),
            current@.len() == CHUNK_BYTES,
            now_ms >= old(self)@.next_publish_at,
            now_ms + PUBLISH_INTERVAL_MS <= u64::MAX,
        ensures
            final(self).wf(),
            published == poll_publishes(old(self)@, current@),
            final(self)@ == poll_next(old(self)@, now_ms, current@),
            final(self)@.latched == current@,
    {
        self.changed = false;
        if bytes_equal(&self.latched, current) {
            false
        } else {
            self.latched = copy_bytes(current);
            self.next_publish_at = now_ms + PUBLISH_INTERVAL_MS;
            true
        }
    }
}

/// Between two publishes of one chunk at least [`PUBLISH_INTERVAL_MS`]
/// elapses: if a poll at `t1` publishes and a later admissible poll at `t2`
/// publishes again, then `t2 - t1 >= PUBLISH_INTERVAL_MS`.
pub proof fn lemma_publish_interval(
    s0: SegmentView,
    t1: u64,
    c1: Seq<u8>,
    t2: u64,
    c2: Seq<u8>,
)
    requires
        t1 >= s0.next_publish_at,
        t1 + PUBLISH_INTERVAL_MS <= u64::MAX,
        poll_publishes(s0, c1),
        t2 >= poll_next(s0, t1, c1).next_publish_at,
        poll_publishes(poll_next(s0, t1, c1), c2),
    ensures
        t2 >= t1 + PUBLISH_INTERVAL_MS,
{
}

} // verus!
