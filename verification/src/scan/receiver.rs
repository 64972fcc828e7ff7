//! The output side of a scan: results are first buffered (so that a quick
//! search comes out sorted) and then streamed. This module holds the
//! decisions; the caller owns the buffer, the clock and the output, and
//! does what each decision says.

use vstd::prelude::*;

verus! {

/// Buffer at most this many results before streaming.
pub const MAX_BUFFER_LENGTH: usize = 1000;

/// How the process ends.
#[derive(Debug, Clone, Copy, PartialEq, Eq, Structural)]
pub enum ExitCode {
    Success,
    /// `--quiet`: whether there was at least one result.
    HasResults(bool),
    GeneralError,
    KilledBySigint,
}

#[derive(Debug, Clone, Copy, PartialEq, Eq, Structural)]
pub enum ReceiverMode {
    /// Results are kept back, to be sorted if the search ends soon enough.
    Buffering,
    /// Results are printed as they come.
    Streaming,
}

/// The receiver's counters and mode.
#[derive(Debug, Clone, Copy)]
pub struct ReceiverState {
    pub mode: ReceiverMode,
    /// Results held in the caller's buffer.
    pub buffered: usize,
    /// Results received so far.
    pub num_results: usize,
}

/// What to do at the end: print the buffer (sorted) first or not, then
/// exit with `code`.
#[derive(Debug, Clone, Copy, PartialEq, Eq, Structural)]
pub struct StopPlan {
    pub sort_and_print_buffer: bool,
    pub code: ExitCode,
}

/// What to do with one received result, in this order: quit at once;
/// otherwise print it now or add it to the buffer; then print the buffer
/// and switch to streaming if it overflowed; then stop if the result limit
/// is reached.
#[derive(Debug, Clone, Copy, PartialEq, Eq, Structural)]
pub struct EntryPlan {
    pub quit: Option<ExitCode>,
    pub print_now: bool,
    pub flush_buffer: bool,
    pub stop: Option<StopPlan>,
}

/// The end of the scan in state `s`: a buffering receiver prints its
/// buffer sorted; `--quiet` reports whether anything was found.
pub open spec fn stop_plan_spec(s: ReceiverState, quiet: bool) -> StopPlan {
    StopPlan {
        sort_and_print_buffer: s.mode == ReceiverMode::Buffering,
        code: if quiet { ExitCode::HasResults(s.num_results > 0) } else { ExitCode::Success },
    }
}

pub open spec fn saturating_inc(n: usize) -> usize {
    if n < usize::MAX { (n + 1) as usize } else { n }
}

impl ReceiverState {
    /// The buffer never holds more than the limit, and holds nothing while
    /// streaming.
    pub open spec fn wf(self) -> bool {
        &&& self.buffered <= MAX_BUFFER_LENGTH
        &&& self.mode == ReceiverMode::Streaming ==> self.buffered == 0
    }

    /// A fresh receiver: without a buffering budget it streams from the
    /// start.
    pub fn new(no_buffer_time: bool) -> (s: Self)
        ensures
            s.wf(),
            s.mode == (if no_buffer_time { ReceiverMode::Streaming } else { ReceiverMode::Buffering }),
            s.buffered == 0,
            s.num_results == 0,
    {
        ReceiverState {
            mode: if no_buffer_time { ReceiverMode::Streaming } else { ReceiverMode::Buffering },
            buffered: 0,
            num_results: 0,
        }
    }

    /// How the scan ends from this state.
    pub fn stop_plan(&self, quiet: bool) -> (p: StopPlan)
        ensures
            p == stop_plan_spec(*self, quiet),
    {
        StopPlan {
            sort_and_print_buffer: self.mode == ReceiverMode::Buffering,
            code: if quiet { ExitCode::HasResults(self.num_results > 0) } else { ExitCode::Success },
        }
    }

    /// One result arrived. Under `--quiet` the scan ends at once with
    /// "found". Otherwise a streaming receiver prints it and a buffering one
    /// keeps it, switching to streaming once the buffer holds more than
    /// `MAX_BUFFER_LENGTH` results; the result is counted, and reaching
    /// `max_results` ends the scan.
    pub fn on_entry(&mut self, quiet: bool, max_results: Option<usize>) -> (p: EntryPlan)
        requires
            old(self).wf(),
        ensures
            final(self).wf(),
            quiet ==> p.quit == Some(ExitCode::HasResults(true)) && *final(self) == *old(self),
            !quiet ==> {
                let over = old(self).mode == ReceiverMode::Buffering && old(self).buffered + 1 > MAX_BUFFER_LENGTH;
                let mode = if over { ReceiverMode::Streaming } else { old(self).mode };
                let mid = ReceiverState {
                    mode,
                    buffered: if old(self).mode == ReceiverMode::Buffering && !over { (old(self).buffered + 1) as usize } else { 0 },
                    num_results: saturating_inc(old(self).num_results),
                };
                &&& p.quit is None
                &&& p.print_now == (old(self).mode == ReceiverMode::Streaming)
                &&& p.flush_buffer == over
                &&& *final(self) == mid
                &&& p.stop == (match max_results {
                    Some(m) => if mid.num_results >= m { Some(stop_plan_spec(mid, quiet)) } else { None },
                    None => None,
                })
            },
    {
        if quiet {
            return EntryPlan { quit: Some(ExitCode::HasResults(true)), print_now: false, flush_buffer: false, stop: None };
        }
        let print_now = self.mode == ReceiverMode::Streaming;
        let mut flush_buffer = false;
        if self.mode == ReceiverMode::Buffering {
            self.buffered = self.buffered + 1;
            if self.buffered > MAX_BUFFER_LENGTH {
                self.mode = ReceiverMode::Streaming;
                self.buffered = 0;
                flush_buffer = true;
            }
        }
        if self.num_results < usize::MAX {
            self.num_results = self.num_results + 1;
        }
        let stop = match max_results {
            Some(m) => if self.num_results >= m { Some(self.stop_plan(quiet)) } else { None },
            None => None,
        };
        EntryPlan { quit: None, print_now, flush_buffer, stop }
    }

    /// The buffering deadline passed: print the buffer and stream from now
    /// on.
    pub fn on_timeout(&mut self)
        ensures
            final(self).wf(),
            final(self).mode == ReceiverMode::Streaming,
            final(self).buffered == 0,
            final(self).num_results == old(self).num_results,
    {
        self.mode = ReceiverMode::Streaming;
        self.buffered = 0;
    }

    /// Whether to flush the output after a batch: when streaming and no
    /// further batch is waiting.
    pub fn flush_after_batch(&self, nothing_waiting: bool) -> (b: bool)
        ensures
            b == (self.mode == ReceiverMode::Streaming && nothing_waiting),
    {
        self.mode == ReceiverMode::Streaming && nothing_waiting
    }
}

} // verus!
