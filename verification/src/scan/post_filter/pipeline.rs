//! [`Pipeline`]: the ordered filter chain.

use vstd::prelude::*;
use crate::scan::backend::{RawHit, RawHitView, hits_view};
use super::{ChainFilter, Filter, Verdict};
use crate::scan::pipeline_builder::Stage;

verus! {

/// Result of running one hit through the chain.
#[derive(Debug, Clone, Copy, PartialEq, Eq, Structural)]
pub enum PipelineOutcome {
    /// Every filter kept the hit: forward it.
    Forward,
    /// Some filter dropped the hit.
    Drop,
    /// Some filter asked to cancel: forward this hit, then stop the backend.
    ForwardAndCancel,
}

pub struct Pipeline {
    filters: Vec<ChainFilter>,
    /// For a chain assembled from options, the stage each filter stands
    /// for, in chain order.
    stages: Ghost<Option<Seq<Stage>>>,
}

/// The outcome a deciding verdict stands for.
pub open spec fn outcome_of(v: Verdict) -> PipelineOutcome {
    match v {
        Verdict::Keep => PipelineOutcome::Forward,
        Verdict::Drop => PipelineOutcome::Drop,
        Verdict::Cancel => PipelineOutcome::ForwardAndCancel,
    }
}

/// One run of `hit` through the chain `before`, deciding at filter `k`:
/// every filter before `k` kept the hit, filter `k` (if any) answered a
/// non-`Keep` verdict giving `out`, and the filters after `k` were not
/// consulted.
pub open spec fn step_at(before: Seq<ChainFilter>, after: Seq<ChainFilter>, hit: RawHitView, out: PipelineOutcome, k: int) -> bool {
    &&& 0 <= k <= before.len()
    &&& after.len() == before.len()
    &&& forall|j: int| 0 <= j < k ==> #[trigger] before[j].allows(hit, Verdict::Keep)
    &&& forall|j: int| 0 <= j < k ==> #[trigger] before[j].moves_to(after[j], hit, Verdict::Keep)
    &&& k == before.len() ==> out == PipelineOutcome::Forward
    &&& k < before.len() ==> exists|v: Verdict| v != Verdict::Keep && before[k].allows(hit, v)
        && before[k].moves_to(after[k], hit, v) && out == outcome_of(v)
    &&& forall|j: int| k < j < before.len() ==> #[trigger] after[j] == before[j]
}

pub open spec fn step(before: Seq<ChainFilter>, after: Seq<ChainFilter>, hit: RawHitView, out: PipelineOutcome) -> bool {
    exists|k: int| step_at(before, after, hit, out, k)
}

impl Pipeline {
    pub closed spec fn chain(&self) -> Seq<ChainFilter> {
        self.filters@
    }

    /// The stage each filter stands for, when the chain was assembled
    /// from options; `None` for a chain given filter by filter.
    pub closed spec fn stages(&self) -> Option<Seq<Stage>> {
        self.stages@
    }

    /// A pipeline over an already-ordered filter list, each filter held as
    /// a trait object.
    pub fn new(filters: Vec<Box<dyn Filter>>) -> (p: Self)
        ensures
            p.chain().len() == filters@.len(),
            forall|i: int| 0 <= i < p.chain().len() ==> (#[trigger] p.chain()[i]) is Custom,
            p.stages() == None::<Seq<Stage>>,
    {
        let mut filters = filters;
        let n = filters.len();
        let mut rev: Vec<ChainFilter> = Vec::new();
        while filters.len() > 0
            invariant
                rev@.len() + filters@.len() == n,
                forall|i: int| 0 <= i < rev@.len() ==> (#[trigger] rev@[i]) is Custom,
            decreases filters@.len(),
        {
            let ghost pre = filters@;
            let f = filters.pop().unwrap();
            proof {
                vstd::seq::axiom_seq_subrange_len(pre, 0, pre.len() - 1);
                assert(filters@ == pre.subrange(0, pre.len() - 1));
            }
            let link = ChainFilter::Custom(f);
            let ghost before_push = rev@;
            let ghost gl = link;
            rev.push(link);
            proof {
                assert(rev@ == before_push.push(gl));
                vstd::seq::axiom_seq_push_len(before_push, gl);
                assert forall|i: int| 0 <= i < rev@.len() implies (#[trigger] rev@[i]) is Custom by {
                    if i < before_push.len() {
                        vstd::seq::axiom_seq_push_index_different(before_push, gl, i);
                    } else {
                        vstd::seq::axiom_seq_push_index_same(before_push, gl, i);
                    }
                }
            }
        }
        let mut chain: Vec<ChainFilter> = Vec::new();
        while rev.len() > 0
            invariant
                rev@.len() + chain@.len() == n,
                forall|i: int| 0 <= i < rev@.len() ==> (#[trigger] rev@[i]) is Custom,
                forall|i: int| 0 <= i < chain@.len() ==> (#[trigger] chain@[i]) is Custom,
            decreases rev@.len(),
        {
            let ghost pre = rev@;
            let f = rev.pop().unwrap();
            let ghost gf = f;
            let ghost before_push = chain@;
            chain.push(f);
            proof {
                vstd::seq::axiom_seq_subrange_len(pre, 0, pre.len() - 1);
                assert(rev@ == pre.subrange(0, pre.len() - 1));
                assert(gf == pre[pre.len() - 1]);
                assert forall|i: int| 0 <= i < rev@.len() implies (#[trigger] rev@[i]) is Custom by {
                    vstd::seq::axiom_seq_subrange_index(pre, 0, pre.len() - 1, i);
                }
                vstd::seq::axiom_seq_push_len(before_push, gf);
                assert forall|i: int| 0 <= i < chain@.len() implies (#[trigger] chain@[i]) is Custom by {
                    if i < before_push.len() {
                        vstd::seq::axiom_seq_push_index_different(before_push, gf, i);
                    } else {
                        vstd::seq::axiom_seq_push_index_same(before_push, gf, i);
                    }
                }
            }
        }
        Pipeline { filters: chain, stages: Ghost(None) }
    }

    /// A pipeline over filters assembled for the stages `stages`, one
    /// filter per stage.
    pub(crate) fn planned(filters: Vec<ChainFilter>, stages: Ghost<Seq<Stage>>) -> (p: Self)
        requires
            filters@.len() == stages@.len(),
        ensures
            p.chain() == filters@,
            p.stages() == Some(stages@),
    {
        Pipeline { filters, stages: Ghost(Some(stages@)) }
    }

    /// Run one hit through every filter in order, stopping at the first
    /// `Drop` or `Cancel`; the filters after that one are not consulted.
    pub fn process(&mut self, hit: &RawHit) -> (out: PipelineOutcome)
        ensures
            step(old(self).chain(), final(self).chain(), hit@, out),
            final(self).stages() == old(self).stages(),
    {
        let ghost before = self.filters@;
        let mut i: usize = 0;
        while i < self.filters.len()
            invariant
                self.stages@ == old(self).stages@,
                before == old(self).chain(),
                i <= self.filters.len(),
                self.filters@.len() == before.len(),
                forall|j: int| 0 <= j < i ==> #[trigger] before[j].allows(hit@, Verdict::Keep),
                forall|j: int| 0 <= j < i ==> #[trigger] before[j].moves_to(self.filters@[j], hit@, Verdict::Keep),
                forall|j: int| i <= j < before.len() ==> #[trigger] self.filters@[j] == before[j],
            decreases self.filters.len() - i,
        {
            let ghost pre = self.filters@;
            let v = self.filters[i].evaluate(hit);
            assert(pre[i as int] == before[i as int]);
            assert(before[i as int].allows(hit@, v));
            assert(before[i as int].moves_to(self.filters@[i as int], hit@, v));
            assert(self.filters@.len() == pre.len());
            assert(forall|j: int| 0 <= j < pre.len() && j != i ==> self.filters@[j] == pre[j]);
            if v != Verdict::Keep {
                let out = match v {
                    Verdict::Drop => PipelineOutcome::Drop,
                    _ => PipelineOutcome::ForwardAndCancel,
                };
                assert(v != Verdict::Keep && before[i as int].allows(hit@, v)
                    && before[i as int].moves_to(self.filters@[i as int], hit@, v) && out == outcome_of(v));
                assert(forall|j: int| i < j < before.len() ==> #[trigger] self.filters@[j] == before[j]);
                assert(forall|j: int| 0 <= j < i ==> #[trigger] before[j].moves_to(self.filters@[j], hit@, Verdict::Keep));
                assert(step_at(before, self.filters@, hit@, out, i as int));
                assert(step(before, self.filters@, hit@, out));
                return out;
            }
            i += 1;
        }
        assert(step_at(before, self.filters@, hit@, PipelineOutcome::Forward, i as int));
        assert(step(before, self.filters@, hit@, PipelineOutcome::Forward));
        PipelineOutcome::Forward
    }

    /// Run `hit` through the filters from `from` on, as `process` does
    /// through the whole chain: whether it was kept, and whether a filter
    /// asked to cancel.
    fn run_downstream(&mut self, from: usize, hit: &RawHit) -> (r: (bool, bool))
        requires
            1 <= from <= old(self).chain().len(),
        ensures
            final(self).chain().len() == old(self).chain().len(),
            !(!r.0 && r.1),
            run_from(old(self).chain(), final(self).chain(), hit@, decided(r.0, r.1), from as int),
            from == old(self).chain().len() ==> r.0 && !r.1,
            final(self).stages() == old(self).stages(),
    {
        let n = self.filters.len();
        let ghost s0 = self.filters@;
        let i: usize = from - 1;
        let ghost mut dec: int = n as int;
        let mut keep = true;
        let mut cancelled = false;
        let mut j: usize = from;
        while j < n && keep && !cancelled
            invariant
                self.stages@ == old(self).stages@,
                n == self.filters.len(),
                i + 1 == from,
                i < j <= n,
                from == n ==> keep && !cancelled,
                s0.len() == n,
                self.filters@.len() == n,
                !(!keep && cancelled),
                forall|jj: int| 0 <= jj < from ==> #[trigger] self.filters@[jj] == s0[jj],
                keep && !cancelled ==> dec == n,
                keep && !cancelled ==> forall|jj: int| from <= jj < j ==> #[trigger] s0[jj].allows(hit@, Verdict::Keep),
                keep && !cancelled ==> forall|jj: int| from <= jj < j ==> #[trigger] s0[jj].moves_to(self.filters@[jj], hit@, Verdict::Keep),
                keep && !cancelled ==> forall|jj: int| j <= jj < n ==> #[trigger] self.filters@[jj] == s0[jj],
                !(keep && !cancelled) ==> run_from_at(s0, self.filters@, hit@, decided(keep, cancelled), from as int, dec),
            decreases n - j,
        {
            let ghost p2 = self.filters@;
            let v = self.filters[j].evaluate(hit);
            proof {
                assert(p2[j as int] == s0[j as int]);
                assert(s0[j as int].allows(hit@, v));
                assert(s0[j as int].moves_to(self.filters@[j as int], hit@, v));
                assert(forall|jj: int| 0 <= jj < n && jj != j ==> self.filters@[jj] == p2[jj]);
            }
            if v == Verdict::Drop {
                keep = false;
            } else if v == Verdict::Cancel {
                cancelled = true;
            }
            proof {
                if v != Verdict::Keep {
                    dec = j as int;
                    assert(v != Verdict::Keep && s0[j as int].allows(hit@, v)
                        && s0[j as int].moves_to(self.filters@[j as int], hit@, v) && decided(keep, cancelled) == outcome_of(v));
                    assert(forall|jj: int| from <= jj < j ==> #[trigger] s0[jj].moves_to(self.filters@[jj], hit@, Verdict::Keep));
                    assert(forall|jj: int| j < jj < n ==> #[trigger] self.filters@[jj] == s0[jj]);
                    assert(run_from_at(s0, self.filters@, hit@, decided(keep, cancelled), from as int, dec));
                }
            }
            j += 1;
        }
        proof {
            if keep && !cancelled {
                assert(j == n);
            }
            assert(run_from_at(s0, self.filters@, hit@, decided(keep, cancelled), from as int, dec));
        }
        (keep, cancelled)
    }

    /// Drain the buffered hits of each filter in chain order. A drained hit
    /// re-enters the chain at the filter after the one that held it; it is
    /// appended to `out` unless a downstream filter drops it, and a `Cancel`
    /// appends that hit and stops the whole drain: what `out` gains is the
    /// drain cascade of the chain. When no filter holds a hit, nothing is
    /// appended; a lone filter's held hits are all appended, in its drain
    /// order.
    #[verifier::rlimit(100)]
    pub fn drain_into(&mut self, out: &mut Vec<RawHit>)
        ensures
            final(out)@.len() >= old(out)@.len(),
            final(out)@.take(old(out)@.len() as int) == old(out)@,
            final(self).chain().len() == old(self).chain().len(),
            final(self).stages() == old(self).stages(),
            exists|rounds: Seq<DrainRound>| #[trigger] drain_cascade(old(self).chain(), final(self).chain(), rounds)
                && hits_view(final(out)@) == hits_view(old(out)@) + cascade_output(rounds),
            nothing_pending(old(self).chain()) ==> final(out)@ == old(out)@,
            old(self).chain().len() == 1 ==> hits_view(final(out)@) == hits_view(old(out)@) + old(self).chain()[0].pending(),
    {
        let n = self.filters.len();
        let ghost start = out@;
        let ghost before = self.filters@;
        let ghost mut rounds: Seq<DrainRound> = Seq::empty();
        let mut i: usize = 0;
        while i < n
            invariant
                self.stages@ == old(self).stages@,
                n == self.filters.len(),
                n == old(self).chain().len(),
                before == old(self).chain(),
                i <= n,
                start == old(out)@,
                out@.len() >= start.len(),
                out@.take(start.len() as int) == start,
                nothing_pending(before) ==> out@ == start,
                nothing_pending(before) ==> forall|j: int| i <= j < n ==> #[trigger] self.filters@[j] == before[j],
                i == 0 ==> self.filters@ == before && out@ == start,
                n == 1 && i == 1 ==> hits_view(out@) == hits_view(start) + before[0].pending(),
                rounds.len() == i,
                forall|r: int| 0 <= r < i ==> round_ok(#[trigger] rounds[r], r) && !round_cancelled(rounds[r]),
                i > 0 ==> rounds[0].before == before && self.filters@ == round_after(rounds[i - 1]),
                forall|r: int| 0 <= r < i - 1 ==> #[trigger] rounds[r + 1].before == round_after(rounds[r]),
                hits_view(out@) == hits_view(start) + cascade_output(rounds),
            decreases n - i,
        {
            let ghost pre = self.filters@;
            let drained = self.filters[i].drain();
            proof {
                assert(self.filters@.len() == pre.len());
                assert(forall|j: int| 0 <= j < pre.len() && j != i ==> self.filters@[j] == pre[j]);
                assert(hits_view(drained@) == pre[i as int].pending());
                if nothing_pending(before) {
                    assert(pre[i as int] == before[i as int]);
                    assert(before[i as int].pending().len() == 0);
                    assert(drained@.len() == 0);
                }
            }
            let ghost mid = self.filters@;
            let ghost held = hits_view(drained@);
            let ghost mut states: Seq<Seq<ChainFilter>> = seq![mid];
            let ghost mut outs: Seq<PipelineOutcome> = Seq::empty();
            proof {
                assert(kept(held, outs) =~= Seq::<RawHitView>::empty());
                assert(hits_view(out@) =~= hits_view(start) + cascade_output(rounds) + kept(held, outs));
            }
            let mut k: usize = 0;
            while k < drained.len()
                invariant
                    self.stages@ == old(self).stages@,
                    n == self.filters.len(),
                    n == old(self).chain().len(),
                    before == old(self).chain(),
                    start == old(out)@,
                    i < n,
                    k <= drained.len(),
                    out@.len() >= start.len(),
                    out@.take(start.len() as int) == start,
                    nothing_pending(before) ==> drained@.len() == 0 && out@ == start && self.filters@ == mid,
                    n == 1 ==> i == 0 && hits_view(drained@) == before[0].pending()
                        && hits_view(out@) == hits_view(start) + hits_view(drained@.take(k as int)),
                    held == hits_view(drained@),
                    held == pre[i as int].pending(),
                    pre.len() == n,
                    mid.len() == n,
                    mid[i as int].pending() == Seq::<RawHitView>::empty(),
                    forall|j: int| 0 <= j < n && j != i ==> #[trigger] mid[j] == pre[j],
                    states.len() == k + 1,
                    outs.len() == k,
                    states[0] == mid,
                    states.last() == self.filters@,
                    forall|kk: int| 0 <= kk < k ==> run_from(#[trigger] states[kk], states[kk + 1], held[kk], outs[kk], i + 1),
                    forall|kk: int| 0 <= kk < k ==> #[trigger] outs[kk] != PipelineOutcome::ForwardAndCancel,
                    hits_view(out@) == hits_view(start) + cascade_output(rounds) + kept(held, outs),
                    rounds.len() == i,
                    forall|r: int| 0 <= r < i ==> round_ok(#[trigger] rounds[r], r) && !round_cancelled(rounds[r]),
                    i > 0 ==> rounds[0].before == before && pre == round_after(rounds[i - 1]),
                    i == 0 ==> pre == before,
                    forall|r: int| 0 <= r < i - 1 ==> #[trigger] rounds[r + 1].before == round_after(rounds[r]),
                decreases drained.len() - k,
            {
                let hit = drained[k].clone();
                let ghost s0 = self.filters@;
                let (keep, cancelled) = self.run_downstream(i + 1, &hit);
                let ghost o = decided(keep, cancelled);
                proof {
                    assert(run_from(s0, self.filters@, hit@, o, i + 1));
                    assert(hit@ == held[k as int]);
                }
                let ghost prev_outs = outs;
                if keep {
                    let ghost prev = out@;
                    out.push(hit);
                    assert(out@.take(start.len() as int) =~= prev.take(start.len() as int));
                    proof {
                        assert(hits_view(out@) =~= hits_view(prev).push(hit@));
                        if n == 1 {
                            assert(drained@.take(k + 1) =~= drained@.take(k as int).push(drained@[k as int]));
                            assert(hits_view(drained@.take(k + 1)) =~= hits_view(drained@.take(k as int)).push(drained@[k as int]@));
                        }
                    }
                }
                proof {
                    lemma_round_step(held, states, outs, self.filters@, o, i as int, k as int);
                    states = states.push(self.filters@);
                    outs = outs.push(o);
                    assert(hits_view(out@) =~= hits_view(start) + cascade_output(rounds) + kept(held, outs));
                }
                if cancelled {
                    proof {
                        let rd = DrainRound { before: pre, held, states, outs };
                        let rounds2 = rounds.push(rd);
                        assert(round_ok(rd, i as int));
                        lemma_cascade_output_push(rounds, rd);
                        assert(drain_cascade(before, self.filters@, rounds2));
                        assert(hits_view(out@) =~= hits_view(start) + cascade_output(rounds2));
                        assert(drain_cascade(old(self).chain(), self.chain(), rounds2)
                            && hits_view(out@) == hits_view(old(out)@) + cascade_output(rounds2));
                    }
                    return;
                }
                k += 1;
            }
            proof {
                if n == 1 {
                    assert(drained@.take(drained@.len() as int) =~= drained@);
                }
                let rd = DrainRound { before: pre, held, states, outs };
                let rounds2 = rounds.push(rd);
                assert(round_ok(rd, i as int));
                assert(!round_cancelled(rd));
                lemma_cascade_output_push(rounds, rd);
                rounds = rounds2;
            }
            i += 1;
        }
        proof {
            assert(drain_cascade(old(self).chain(), self.chain(), rounds)
                && hits_view(out@) == hits_view(old(out)@) + cascade_output(rounds));
        }
    }
}

/// One more hit of a round has run: the round's record grows by the chain
/// it left and by its outcome, and what got through grows by the hit unless
/// it was dropped.
proof fn lemma_round_step(
    held: Seq<RawHitView>,
    states: Seq<Seq<ChainFilter>>,
    outs: Seq<PipelineOutcome>,
    now: Seq<ChainFilter>,
    o: PipelineOutcome,
    i: int,
    k: int,
)
    requires
        0 <= k < held.len(),
        states.len() == k + 1,
        outs.len() == k,
        forall|kk: int| 0 <= kk < k ==> run_from(#[trigger] states[kk], states[kk + 1], held[kk], outs[kk], i + 1),
        run_from(states.last(), now, held[k], o, i + 1),
    ensures
        forall|kk: int| 0 <= kk < k + 1 ==> run_from(#[trigger] states.push(now)[kk], states.push(now)[kk + 1], held[kk], outs.push(o)[kk], i + 1),
        kept(held, outs.push(o)) == kept(held, outs) + (if o == PipelineOutcome::Drop { Seq::empty() } else { seq![held[k]] }),
{
    let s2 = states.push(now);
    let o2 = outs.push(o);
    assert(o2.take(k) =~= outs);
    assert forall|kk: int| 0 <= kk < k + 1 implies run_from(#[trigger] s2[kk], s2[kk + 1], held[kk], o2[kk], i + 1) by {
        if kk < k {
            assert(s2[kk] == states[kk] && s2[kk + 1] == states[kk + 1] && o2[kk] == outs[kk]);
        } else {
            assert(s2[kk] == states.last() && s2[kk + 1] == now && o2[kk] == o);
        }
    }
}

/// A drain's output grows, round by round, by what each round let through.
proof fn lemma_cascade_output_push(rounds: Seq<DrainRound>, rd: DrainRound)
    ensures
        cascade_output(rounds.push(rd)) == cascade_output(rounds) + kept(rd.held, rd.outs),
{
    assert(rounds.push(rd).take(rounds.len() as int) =~= rounds);
}

/// The outcome of a downstream run that dropped the hit (`keep` false),
/// asked to cancel, or let it through.
pub open spec fn decided(keep: bool, cancelled: bool) -> PipelineOutcome {
    if !keep {
        PipelineOutcome::Drop
    } else if cancelled {
        PipelineOutcome::ForwardAndCancel
    } else {
        PipelineOutcome::Forward
    }
}

/// A hit re-entering the chain `before` at filter `from`, deciding at filter
/// `k`: the filters before `from` are neither consulted nor changed, those
/// from `from` up to `k` kept the hit, filter `k` (if any) answered a
/// non-`Keep` verdict giving `out`, and the filters after `k` were not
/// consulted.
pub open spec fn run_from_at(before: Seq<ChainFilter>, after: Seq<ChainFilter>, hit: RawHitView, out: PipelineOutcome, from: int, k: int) -> bool {
    &&& 0 <= from <= k <= before.len()
    &&& after.len() == before.len()
    &&& forall|j: int| 0 <= j < from ==> #[trigger] after[j] == before[j]
    &&& forall|j: int| from <= j < k ==> #[trigger] before[j].allows(hit, Verdict::Keep)
    &&& forall|j: int| from <= j < k ==> #[trigger] before[j].moves_to(after[j], hit, Verdict::Keep)
    &&& k == before.len() ==> out == PipelineOutcome::Forward
    &&& k < before.len() ==> exists|v: Verdict| v != Verdict::Keep && before[k].allows(hit, v)
        && before[k].moves_to(after[k], hit, v) && out == outcome_of(v)
    &&& forall|j: int| k < j < before.len() ==> #[trigger] after[j] == before[j]
}

pub open spec fn run_from(before: Seq<ChainFilter>, after: Seq<ChainFilter>, hit: RawHitView, out: PipelineOutcome, from: int) -> bool {
    exists|k: int| run_from_at(before, after, hit, out, from, k)
}

/// One filter's turn in a drain.
pub struct DrainRound {
    /// The chain just before the filter was drained.
    pub before: Seq<ChainFilter>,
    /// The hits the filter handed out, in its drain order.
    pub held: Seq<RawHitView>,
    /// The chain right after the drain, then after each handed-out hit ran
    /// through the filters downstream of this one.
    pub states: Seq<Seq<ChainFilter>>,
    /// What the downstream filters made of each hit that ran.
    pub outs: Seq<PipelineOutcome>,
}

/// The round ended on a hit that asked to cancel.
pub open spec fn round_cancelled(r: DrainRound) -> bool {
    r.outs.len() > 0 && r.outs.last() == PipelineOutcome::ForwardAndCancel
}

/// `r` is the turn of filter `i`: it handed out what it held and now holds
/// nothing, the other filters untouched; its hits then ran, in order, from
/// filter `i + 1` on, all of them unless one asked to cancel, which ended the
/// round.
pub open spec fn round_ok(r: DrainRound, i: int) -> bool {
    &&& 0 <= i < r.before.len()
    &&& r.held == r.before[i].pending()
    &&& r.states.len() == r.outs.len() + 1
    &&& r.outs.len() <= r.held.len()
    &&& r.states[0].len() == r.before.len()
    &&& r.states[0][i].pending() == Seq::<RawHitView>::empty()
    &&& forall|j: int| 0 <= j < r.before.len() && j != i ==> #[trigger] r.states[0][j] == r.before[j]
    &&& forall|k: int| 0 <= k < r.outs.len() ==> run_from(#[trigger] r.states[k], r.states[k + 1], r.held[k], r.outs[k], i + 1)
    &&& forall|k: int| 0 <= k < r.outs.len() - 1 ==> #[trigger] r.outs[k] != PipelineOutcome::ForwardAndCancel
    &&& r.outs.len() < r.held.len() ==> round_cancelled(r)
}

/// The chain as a round leaves it.
pub open spec fn round_after(r: DrainRound) -> Seq<ChainFilter> {
    r.states.last()
}

/// The hits of `held` that got through, given what became of the first
/// `outs.len()` of them.
pub open spec fn kept(held: Seq<RawHitView>, outs: Seq<PipelineOutcome>) -> Seq<RawHitView>
    decreases outs.len(),
{
    if outs.len() == 0 {
        Seq::empty()
    } else {
        let k = outs.len() - 1;
        let tail = if outs[k] == PipelineOutcome::Drop { Seq::empty() } else { seq![held[k]] };
        kept(held, outs.take(k)) + tail
    }
}

/// What a drain hands out over its rounds, round after round.
pub open spec fn cascade_output(rounds: Seq<DrainRound>) -> Seq<RawHitView>
    decreases rounds.len(),
{
    if rounds.len() == 0 {
        Seq::empty()
    } else {
        cascade_output(rounds.take(rounds.len() - 1)) + kept(rounds.last().held, rounds.last().outs)
    }
}

/// `rounds` is a drain of the chain `before` that leaves it as `after`: the
/// filters take their turns in chain order, each starting from the chain as
/// the previous turn left it, every filter taking its turn unless a round
/// ended on a cancel, which ends the drain.
pub open spec fn drain_cascade(before: Seq<ChainFilter>, after: Seq<ChainFilter>, rounds: Seq<DrainRound>) -> bool {
    &&& rounds.len() <= before.len()
    &&& forall|i: int| 0 <= i < rounds.len() ==> round_ok(#[trigger] rounds[i], i)
    &&& rounds.len() == 0 ==> after == before
    &&& rounds.len() > 0 ==> rounds[0].before == before && after == round_after(rounds.last())
    &&& forall|i: int| 0 <= i < rounds.len() - 1 ==> !round_cancelled(#[trigger] rounds[i]) && rounds[i + 1].before == round_after(rounds[i])
    &&& rounds.len() < before.len() ==> rounds.len() > 0 && round_cancelled(rounds.last())
}

/// No filter of the chain holds a hit back.
pub open spec fn nothing_pending(chain: Seq<ChainFilter>) -> bool {
    forall|j: int| 0 <= j < chain.len() ==> (#[trigger] chain[j]).pending().len() == 0
}

} // verus!
