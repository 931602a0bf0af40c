//! Composition: running one effectful computation as a step of another whose
//! effect-kind list holds the kinds of the first.

use vstd::prelude::*;
use crate::carrier::{carries, list_wf, EffectList, InjectionCarrier, Tagged};
use crate::computation::{awaited, settled, Computation, Effectful, Model, Phase, ProtocolError, Step};
use crate::embed::{embed_refused, embeds, lemma_widen_then_narrow, lemma_widened_carries, narrowed, widened, EmbedError, Embedding};
use crate::decl::KindSig;

verus! {

/// What the outer computation yields for what the inner computation's run
/// gave: a suspension with its carrier widened to the outer list, anything
/// else as it is.
pub open spec fn lifted(map: Seq<usize>, outcome: Result<Step, ProtocolError>) -> Result<
    Step,
    ProtocolError,
> {
    match outcome {
        Ok(Step::Suspended(c)) => if c.slot < map.len() {
            Ok(Step::Suspended(widened(map, c)))
        } else {
            Err(ProtocolError::Malformed)
        },
        _ => outcome,
    }
}

/// What a [`Do`] is: the inner computation, and for each position of its
/// effect-kind list the position of the same kind in the outer list.
pub struct DoModel<B> {
    pub inner: Model<B>,
    pub map: Seq<usize>,
}

impl<B: Effectful> DoModel<B> {
    /// The driver after it started the inner computation, and what the outer
    /// computation is to do: suspend on the widened carrier, or go on with the
    /// inner computation's result.
    pub open spec fn started(self) -> (Self, Result<Step, ProtocolError>) {
        let (inner, outcome) = self.inner.started();
        (DoModel { inner, ..self }, lifted(self.map, outcome))
    }

    /// The driver after the outer computation was resumed with `injection`,
    /// and what the outer computation is to do next.
    ///
    /// The injection is narrowed to the inner list and the inner computation is
    /// resumed with it. An injection for a kind that the inner list lacks
    /// breaks the protocol, and the inner computation is not touched.
    pub open spec fn resumed(self, injection: InjectionCarrier) -> (Self, Result<Step, ProtocolError>) {
        match narrowed(self.map, injection) {
            Some(n) => {
                let (inner, outcome) = self.inner.resumed(n);
                (DoModel { inner, ..self }, lifted(self.map, outcome))
            },
            None => (self, Err(ProtocolError::TagMismatch)),
        }
    }
}

/// The composition driver: an inner computation that runs as a step of an
/// outer one. Every suspension of the inner computation goes outward, widened
/// to the outer effect-kind list; every injection comes back, narrowed to the
/// inner list.
pub struct Do<B> {
    inner: Computation<B>,
    embedding: Embedding,
}

impl<B> View for Do<B> {
    type V = DoModel<B>;

    closed spec fn view(&self) -> DoModel<B> {
        DoModel { inner: self.inner@, map: self.embedding@ }
    }
}

/// Sets `inner` up to run as a step of a computation over the kinds `outer`.
///
/// Fails where a kind of the inner computation is missing from `outer`, or
/// stands there under the same name with another declaration.
pub fn do_<B: Effectful>(inner: Computation<B>, outer: &EffectList) -> (r: Result<Do<B>, EmbedError>)
    ensures
        match r {
            Ok(d) => d@.inner == inner@ && embeds(d@.map, inner@.effects, outer@),
            Err(e) => embed_refused(inner@.effects, outer@, e),
        },
{
    match Embedding::new(inner.effects(), outer) {
        Ok(embedding) => Ok(Do { inner, embedding }),
        Err(e) => Err(e),
    }
}

impl<B: Effectful> Do<B> {
    /// The inner computation, as it stands.
    pub fn inner(&self) -> (r: &Computation<B>)
        ensures
            r@ == self@.inner,
    {
        &self.inner
    }

    /// Widens what the inner computation's run gave.
    fn lift(&self, outcome: Result<Step, ProtocolError>) -> (r: Result<Step, ProtocolError>)
        ensures
            r == lifted(self@.map, outcome),
    {
        match outcome {
            Ok(Step::Suspended(c)) => match self.embedding.widen(c) {
                Ok(w) => Ok(Step::Suspended(w)),
                Err(_) => Err(ProtocolError::Malformed),
            },
            other => other,
        }
    }

    /// Starts the inner computation. Where it suspends, the outer computation
    /// is to suspend on the carrier returned; where it completes, its result
    /// is the value of the step.
    pub fn start(&mut self) -> (r: Result<Step, ProtocolError>)
        ensures
            (final(self)@, r) == old(self)@.started(),
    {
        let outcome = self.inner.start();
        self.lift(outcome)
    }

    /// Resumes the inner computation with the injection that the outer
    /// computation was resumed with.
    pub fn resume(&mut self, injection: InjectionCarrier) -> (r: Result<Step, ProtocolError>)
        ensures
            (final(self)@, r) == old(self)@.resumed(injection),
    {
        match self.embedding.narrow(injection) {
            Ok(n) => {
                let outcome = self.inner.resume(n);
                self.lift(outcome)
            },
            Err(_) => Err(ProtocolError::TagMismatch),
        }
    }
}

/// Composition surfaces every effect and answers the right computation.
///
/// Where the kinds of the inner computation all stand in `outer`, a suspension
/// of the inner computation comes out of the driver as a carrier over `outer`
/// that holds the same invocation. An injection that answers that carrier
/// narrows to the injection that the inner computation awaits, so it is the
/// inner body that runs on, with that injection.
pub proof fn lemma_do_forwards_and_routes_back<B: Effectful>(
    d: DoModel<B>,
    outer: Seq<KindSig>,
    injection: InjectionCarrier,
)
    requires
        list_wf(d.inner.effects),
        embeds(d.map, d.inner.effects, outer),
        d.started().1 matches Ok(Step::Suspended(c)) && awaited(
            outer,
            Phase::Suspended { slot: c.slot, op: c.item.op },
            injection,
        ),
    ensures
        ({
            let (d1, step) = d.started();
            let c = step->Ok_0->Suspended_0;
            let ci = d.inner.started().1->Ok_0->Suspended_0;
            let n = Tagged { slot: ci.slot, item: injection.item };
            &&& d.inner.started().1 matches Ok(Step::Suspended(_))
            &&& carries(d.inner.effects, ci)
            &&& c == widened(d.map, ci)
            &&& c.item == ci.item
            &&& carries(outer, c)
            &&& narrowed(d.map, injection) == Some(n)
            &&& awaited(d1.inner.effects, d1.inner.phase, n)
            &&& d1.resumed(injection).0.inner.body == d1.inner.body.resumed(n).0
            &&& d1.resumed(injection).1 == lifted(
                d.map,
                settled(d.inner.effects, d.inner.result, d1.inner.body.resumed(n).1).1,
            )
        }),
{
    let (d1, step) = d.started();
    let c = step->Ok_0->Suspended_0;
    let ci = d.inner.started().1->Ok_0->Suspended_0;
    let n = Tagged { slot: ci.slot, item: injection.item };
    lemma_widened_carries(d.map, d.inner.effects, outer, ci);
    lemma_widen_then_narrow(d.map, d.inner.effects, outer, n);
    assert(widened(d.map, n) == injection);
    assert(outer[injection.slot as int] == d.inner.effects[ci.slot as int]);
}

} // verus!
