//! [`PostFilterSink`]: puts a [`Pipeline`] between a backend and the
//! downstream sink.

use vstd::prelude::*;
use crate::scan::backend::{BackendError, BackendSink, CancellationToken, RawHit, RawHitView, hits_view};
use super::pipeline::{Pipeline, PipelineOutcome, DrainRound, drain_cascade, cascade_output, nothing_pending, step};

verus! {

pub struct PostFilterSink<'a, S: BackendSink + ?Sized> {
    pipeline: Pipeline,
    downstream: &'a mut S,
    cancel: &'a CancellationToken,
    offered: Ghost<Seq<RawHitView>>,
}

impl<'a, S: BackendSink + ?Sized> PostFilterSink<'a, S> {
    /// The hits handed on to the downstream sink so far.
    pub closed spec fn downstream_offered(&self) -> Seq<RawHitView> {
        self.downstream.offered()
    }

    /// Whether the downstream sink, in its present state, may answer `r`
    /// for `hit`.
    pub closed spec fn downstream_answers(&self, hit: RawHitView, r: Result<(), BackendError>) -> bool {
        self.downstream.answers(hit, r)
    }

    pub closed spec fn chain(&self) -> Seq<super::ChainFilter> {
        self.pipeline.chain()
    }

    pub fn new(pipeline: Pipeline, downstream: &'a mut S, cancel: &'a CancellationToken) -> (r: Self)
        ensures
            r.chain() == pipeline.chain(),
            r.downstream_offered() == old(downstream).offered(),
            r.offered() == Seq::<RawHitView>::empty(),
    {
        PostFilterSink { pipeline, downstream, cancel, offered: Ghost(Seq::empty()) }
    }

    /// Hand `hit` downstream unless the token was seen raised
    /// (`cancelled`), in which case nothing is handed over and the answer is
    /// `Cancelled`; otherwise the answer is the downstream's.
    pub fn forward_checked(&mut self, hit: RawHit, cancelled: bool) -> (r: Result<(), BackendError>)
        ensures
            final(self).chain() == old(self).chain(),
            final(self).offered() == old(self).offered(),
            cancelled ==> (r matches Err(BackendError::Cancelled)) && final(self).downstream_offered() == old(self).downstream_offered(),
            !cancelled ==> final(self).downstream_offered() == old(self).downstream_offered().push(hit@)
                && old(self).downstream_answers(hit@, r),
    {
        if cancelled {
            return Err(BackendError::Cancelled);
        }
        self.downstream.send(hit)
    }

    /// One hit from the backend, given whether the token was seen raised
    /// (`cancelled`): see `send_outcome`. A cancel asked for by a filter
    /// raises the token.
    pub fn send_checked(&mut self, hit: RawHit, cancelled: bool) -> (r: Result<(), BackendError>)
        ensures
            old(self).send_outcome(final(self), hit@, cancelled, r),
            final(self).offered() == old(self).offered(),
    {
        if cancelled {
            return Err(BackendError::Cancelled);
        }
        let ghost hv = hit@;
        let o = self.pipeline.process(&hit);
        assert(self.downstream_offered() == old(self).downstream_offered());
        assert(forall|d: Result<(), BackendError>| self.downstream_answers(hv, d) == old(self).downstream_answers(hv, d));
        match o {
            PipelineOutcome::Drop => Ok(()),
            PipelineOutcome::Forward => self.downstream.send(hit),
            PipelineOutcome::ForwardAndCancel => {
                let d = self.downstream.send(hit);
                assert(old(self).downstream_answers(hv, d));
                match d {
                    Ok(()) => {},
                    Err(e) => {
                        assert(Err::<(), BackendError>(e) == after_cancel(d));
                        return Err(e);
                    },
                }
                self.cancel.cancel();
                assert(after_cancel(d) == Err::<(), BackendError>(BackendError::Cancelled));
                Err(BackendError::Cancelled)
            },
        }
    }

    /// What one hit from the backend does, given whether the token was seen
    /// raised: a raised token answers `Cancelled` and touches nothing;
    /// otherwise the hit runs through the pipeline, and is dropped with `Ok`,
    /// or handed downstream with the downstream's answer, or, when a filter
    /// asks to cancel, handed downstream and answered with the downstream's
    /// error or else `Cancelled`.
    pub open spec fn send_outcome(&self, post: &Self, hit: RawHitView, cancelled: bool, r: Result<(), BackendError>) -> bool {
        if cancelled {
            &&& r matches Err(BackendError::Cancelled)
            &&& post.downstream_offered() == self.downstream_offered()
            &&& post.chain() == self.chain()
        } else {
            ||| post.downstream_offered() == self.downstream_offered() && r is Ok
                && step(self.chain(), post.chain(), hit, PipelineOutcome::Drop)
            ||| post.downstream_offered() == self.downstream_offered().push(hit) && self.downstream_answers(hit, r)
                && step(self.chain(), post.chain(), hit, PipelineOutcome::Forward)
            ||| post.downstream_offered() == self.downstream_offered().push(hit)
                && (exists|d: Result<(), BackendError>| self.downstream_answers(hit, d) && r == after_cancel(d))
                && step(self.chain(), post.chain(), hit, PipelineOutcome::ForwardAndCancel)
        }
    }

    /// Drain the pipeline and forward what the drain cascade lets through
    /// downstream, in order, each through `forward_checked` with the token's
    /// answer read just before it, stopping at the first error: `Cancelled`
    /// when the token was seen raised, else the downstream's own. Called once the backend
    /// run is over. The downstream gets a prefix of the cascade's output, all
    /// of it when the result is `Ok`. When no filter holds a hit back, nothing
    /// is forwarded and the result is `Ok`; with a single filter, the cascade
    /// is that filter's held hits.
    pub fn finalize(&mut self) -> (r: Result<(), BackendError>)
        ensures
            final(self).chain().len() == old(self).chain().len(),
            final(self).offered() == old(self).offered(),
            exists|rounds: Seq<DrainRound>, k: int| drain_cascade(old(self).chain(), final(self).chain(), rounds)
                && 0 <= k <= cascade_output(rounds).len()
                && final(self).downstream_offered() == old(self).downstream_offered() + #[trigger] cascade_output(rounds).take(k)
                && (r is Ok ==> k == cascade_output(rounds).len())
                && ((r is Err && !(r matches Err(BackendError::Cancelled))) ==> k >= 1),
            nothing_pending(old(self).chain()) ==> r is Ok
                && final(self).downstream_offered() == old(self).downstream_offered(),
            old(self).chain().len() == 1 ==> exists|k: int| 0 <= k <= old(self).chain()[0].pending().len()
                && final(self).downstream_offered() == old(self).downstream_offered() + #[trigger] old(self).chain()[0].pending().take(k)
                && (r is Ok ==> k == old(self).chain()[0].pending().len()),
    {
        let ghost chain = self.pipeline.chain();
        let ghost down0 = self.downstream_offered();
        let mut buffered: Vec<RawHit> = Vec::new();
        self.pipeline.drain_into(&mut buffered);
        let ghost rounds = choose|rounds: Seq<DrainRound>| drain_cascade(chain, self.chain(), rounds)
            && hits_view(buffered@) == hits_view(Seq::<RawHit>::empty()) + cascade_output(rounds);
        let ghost drained_chain = self.chain();
        proof {
            assert(hits_view(Seq::<RawHit>::empty()) + cascade_output(rounds) =~= cascade_output(rounds));
        }
        assert(nothing_pending(chain) ==> buffered@ =~= Seq::<RawHit>::empty());
        proof {
            if chain.len() == 1 {
                assert(buffered@.take(0) =~= Seq::<RawHit>::empty());
                assert(hits_view(buffered@) =~= chain[0].pending());
            }
        }
        let mut k: usize = 0;
        while k < buffered.len()
            invariant
                chain == old(self).chain(),
                down0 == old(self).downstream_offered(),
                self.chain().len() == chain.len(),
                self.offered() == old(self).offered(),
                k <= buffered.len(),
                self.downstream_offered() == down0 + hits_view(buffered@).take(k as int),
                nothing_pending(chain) ==> buffered@.len() == 0,
                chain.len() == 1 ==> hits_view(buffered@) == chain[0].pending(),
                self.chain() == drained_chain,
                drain_cascade(chain, drained_chain, rounds),
                hits_view(buffered@) == cascade_output(rounds),
            decreases buffered.len() - k,
        {
            let cancelled = self.cancel.is_cancelled();
            let hit = buffered[k].clone();
            let res = self.forward_checked(hit, cancelled);
            if cancelled {
                assert(cascade_output(rounds).take(k as int) == hits_view(buffered@).take(k as int));
                return res;
            }
            assert(hits_view(buffered@).take(k + 1) =~= hits_view(buffered@).take(k as int).push(buffered@[k as int]@));
            if res.is_err() {
                assert(cascade_output(rounds).take(k + 1) == hits_view(buffered@).take(k + 1));
                return res;
            }
            k += 1;
        }
        assert(hits_view(buffered@).take(k as int) =~= hits_view(buffered@));
        assert(cascade_output(rounds).take(k as int) == hits_view(buffered@).take(k as int));
        Ok(())
    }
}

/// The answer after a filter asked to cancel, given the downstream's answer
/// `d` for the hit.
pub open spec fn after_cancel(d: Result<(), BackendError>) -> Result<(), BackendError> {
    match d {
        Ok(()) => Err(BackendError::Cancelled),
        Err(e) => Err(e),
    }
}

impl<'a, S: BackendSink + ?Sized> BackendSink for PostFilterSink<'a, S> {
    closed spec fn offered(&self) -> Seq<RawHitView> {
        self.offered@
    }

    /// `Ok` when the pipeline drops the hit, `Cancelled` when the token is
    /// raised or a filter asks to cancel, otherwise the downstream's answer.
    closed spec fn answers(&self, hit: RawHitView, r: Result<(), BackendError>) -> bool {
        r is Ok || r matches Err(BackendError::Cancelled) || self.downstream.answers(hit, r)
    }

    /// The token is read once on entry; `send_checked` does the rest.
    fn send(&mut self, hit: RawHit) -> (r: Result<(), BackendError>)
        ensures
            exists|cancelled: bool| #[trigger] old(self).send_outcome(final(self), hit@, cancelled, r),
    {
        let ghost hv = hit@;
        self.offered = Ghost(self.offered@.push(hv));
        let cancelled = self.cancel.is_cancelled();
        let r = self.send_checked(hit, cancelled);
        assert(old(self).send_outcome(self, hv, cancelled, r));
        r
    }
}

} // verus!
