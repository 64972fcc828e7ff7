//! Chunking for the parallel ignore evaluation. Hits arrive one at a time
//! and must leave in arrival order without delaying the first one, so the
//! chunk handed to the worker pool starts at one hit and doubles after each
//! chunk, up to a cap; a deadline flushes a partial chunk when hits stop
//! arriving; per-result `--exec` keeps chunks at one hit. This module holds
//! the schedule; the caller owns the hits, the clock and the pool.

use vstd::prelude::*;
use crate::text;

verus! {

/// The chunking settings.
#[derive(Debug, Clone, Copy)]
pub struct ChunkPolicy {
    /// The largest chunk.
    pub max_chunk: usize,
    /// How long a partial chunk may wait, in milliseconds.
    pub flush_deadline_ms: u64,
    /// Keep every chunk at one hit (per-result `--exec`).
    pub force_unit: bool,
}

/// The largest chunk a setting gives: a positive number, else 256.
pub open spec fn max_chunk_spec(setting: Option<Seq<char>>) -> usize {
    match setting {
        Some(t) => match text::parse_unsigned_spec(t) {
            Some(n) => if 0 < n <= usize::MAX { n as usize } else { 256 },
            None => 256,
        },
        None => 256,
    }
}

/// The deadline a setting gives, in milliseconds: a number, else 5.
pub open spec fn deadline_spec(setting: Option<Seq<char>>) -> u64 {
    match setting {
        Some(t) => match text::parse_unsigned_spec(t) {
            Some(n) => if n <= u64::MAX { n as u64 } else { 5 },
            None => 5,
        },
        None => 5,
    }
}

impl ChunkPolicy {
    /// The policy from the settings' text (as read from the environment):
    /// a missing, unreadable or zero chunk cap means 256, a missing or
    /// unreadable deadline means 5 ms.
    pub fn from_settings(max_chunk: Option<&str>, flush_deadline_ms: Option<&str>, force_unit: bool) -> (p: Self)
        ensures
            p.max_chunk == max_chunk_spec(match max_chunk { Some(t) => Some(t@), None => None }),
            p.flush_deadline_ms == deadline_spec(match flush_deadline_ms { Some(t) => Some(t@), None => None }),
            p.force_unit == force_unit,
    {
        let cap: usize = match max_chunk {
            Some(t) => match text::parse_u64(t) {
                Some(n) => if 0 < n && n <= usize::MAX as u64 { n as usize } else { 256 },
                None => 256,
            },
            None => 256,
        };
        let ms: u64 = match flush_deadline_ms {
            Some(t) => match text::parse_u64(t) {
                Some(n) => n,
                None => 5,
            },
            None => 5,
        };
        proof {
            match max_chunk {
                Some(t) => {
                    match text::parse_unsigned_spec(t@) {
                        Some(n) => {
                            if n > u64::MAX {
                                assert(n > usize::MAX);
                            }
                        },
                        None => {},
                    }
                },
                None => {},
            }
        }
        ChunkPolicy { max_chunk: cap, flush_deadline_ms: ms, force_unit }
    }
}

impl Default for ChunkPolicy {
    /// Chunks of up to 256 hits, a 5 ms deadline, growing chunks.
    fn default() -> (p: Self)
        ensures
            p.max_chunk == 256,
            p.flush_deadline_ms == 5,
            !p.force_unit,
    {
        ChunkPolicy { max_chunk: 256, flush_deadline_ms: 5, force_unit: false }
    }
}

/// The chunk size after a chunk was handed out: doubled up to the cap,
/// unless chunks are kept at one hit.
pub open spec fn next_target(target: usize, p: ChunkPolicy) -> usize {
    if p.force_unit {
        target
    } else {
        let doubled = if target <= usize::MAX / 2 { (2 * target) as usize } else { usize::MAX };
        if doubled < p.max_chunk { doubled } else { p.max_chunk }
    }
}

/// Where the chunking stands: the hits held, and the size that releases
/// them.
#[derive(Debug, Clone, Copy)]
pub struct ChunkSchedule {
    pub policy: ChunkPolicy,
    pub buffered: usize,
    pub chunk_target: usize,
}

impl ChunkSchedule {
    /// Nothing held; the first chunk is a single hit.
    pub fn new(policy: ChunkPolicy) -> (s: Self)
        ensures
            s.policy == policy,
            s.buffered == 0,
            s.chunk_target == 1,
    {
        ChunkSchedule { policy, buffered: 0, chunk_target: 1 }
    }

    /// One more hit is held. Returns whether to hand out the held hits now:
    /// when they fill the chunk or the deadline has passed; then nothing is
    /// held any more and the next chunk is `next_target` of this one.
    pub fn push(&mut self, past_deadline: bool) -> (drain: bool)
        requires
            old(self).buffered < usize::MAX,
        ensures
            final(self).policy == old(self).policy,
            drain == (old(self).buffered + 1 >= old(self).chunk_target || past_deadline),
            drain ==> final(self).buffered == 0 && final(self).chunk_target == next_target(old(self).chunk_target, old(self).policy),
            !drain ==> final(self).buffered == old(self).buffered + 1 && final(self).chunk_target == old(self).chunk_target,
    {
        self.buffered = self.buffered + 1;
        if self.buffered >= self.chunk_target || past_deadline {
            self.released();
            true
        } else {
            false
        }
    }

    /// The backend is done: hand out whatever is held, if anything.
    pub fn finish(&mut self) -> (drain: bool)
        ensures
            final(self).policy == old(self).policy,
            drain == (old(self).buffered > 0),
            drain ==> final(self).buffered == 0 && final(self).chunk_target == next_target(old(self).chunk_target, old(self).policy),
            !drain ==> *final(self) == *old(self),
    {
        if self.buffered == 0 {
            false
        } else {
            self.released();
            true
        }
    }

    fn released(&mut self)
        ensures
            final(self).policy == old(self).policy,
            final(self).buffered == 0,
            final(self).chunk_target == next_target(old(self).chunk_target, old(self).policy),
    {
        self.buffered = 0;
        if !self.policy.force_unit {
            let doubled = if self.chunk_target <= usize::MAX / 2 { 2 * self.chunk_target } else { usize::MAX };
            self.chunk_target = if doubled < self.policy.max_chunk { doubled } else { self.policy.max_chunk };
        }
    }
}

/// With chunks kept at one hit, every hit is handed out as it arrives.
pub proof fn lemma_unit_chunks_release_every_hit(s: ChunkSchedule)
    requires
        s.policy.force_unit,
        s.chunk_target == 1,
    ensures
        s.buffered + 1 >= s.chunk_target,
        next_target(s.chunk_target, s.policy) == 1,
{
}

} // verus!
