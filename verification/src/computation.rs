//! Effectful computations: suspendable units of work, and the guard that
//! holds each one to the suspension and resumption protocol.

use vstd::prelude::*;
use crate::carrier::{carries, carries_answer, EffectCarrier, EffectList, InjectionCarrier};
use crate::decl::KindSig;
use crate::value::{Ty, Value};

verus! {

/// A breach of the protocol between a computation and whoever drives it.
#[derive(Clone, Copy, Debug, PartialEq, Eq, Structural)]
pub enum ProtocolError {
    /// What was supplied does not answer what is pending: an injection for
    /// another kind or operation than the one that suspended, an injection of
    /// the wrong type, an injection for a computation that has not started, or
    /// a start of one that already has.
    TagMismatch,
    /// The computation is complete and cannot be driven further.
    ResumeAfterComplete,
    /// The computation, or a handler, gave out something that its declaration
    /// does not allow: a carrier that is none over its effect-kind list, or a
    /// value that is not of the declared type.
    Malformed,
}

/// Where one step of driving left a computation.
#[derive(Debug, PartialEq, Eq)]
pub enum Step {
    /// It paused on the invocation in this carrier.
    Suspended(EffectCarrier),
    /// It finished with this result.
    Complete(Value),
}

/// The state of a computation, as its driver sees it.
#[derive(Clone, Copy, Debug, PartialEq, Eq, Structural)]
pub enum Phase {
    /// Not yet started.
    Fresh,
    /// Paused on the operation at position `op` of the kind at position `slot`
    /// of its effect-kind list.
    Suspended { slot: usize, op: usize },
    /// Finished: it holds nothing to resume.
    Complete,
}

/// The body of an effectful computation: a resumable unit of work that, each
/// time it is run, pauses on an effect carrier or finishes with a result.
///
/// A body is deterministic: what a run gives, and the state it leaves, are
/// functions of the state before the run and of the injection supplied.
pub trait Effectful: Sized {
    /// The state after the first run, and what that run gives.
    spec fn started(self) -> (Self, Result<Step, ProtocolError>);

    /// The state after a run that was resumed with `injection`, and what that
    /// run gives.
    spec fn resumed(self, injection: InjectionCarrier) -> (Self, Result<Step, ProtocolError>);

    /// Runs the body from its beginning to its first suspension or to its end.
    fn start(&mut self) -> (r: Result<Step, ProtocolError>)
        ensures
            (*final(self), r) == old(self).started(),
    ;

    /// Runs the body on from where it paused, with the injection that answers
    /// the pending invocation, to its next suspension or to its end.
    fn resume(&mut self, injection: InjectionCarrier) -> (r: Result<Step, ProtocolError>)
        ensures
            (*final(self), r) == old(self).resumed(injection),
    ;
}

/// What a [`Computation`] is: its effect-kind list, the type of its result,
/// its phase, and its body.
pub struct Model<B> {
    pub effects: Seq<KindSig>,
    pub result: Ty,
    pub phase: Phase,
    pub body: B,
}

/// What the guard makes of what a body's run gave: the phase that the
/// computation is in afterwards, and what the driver is told.
///
/// A suspension passes if its carrier is one over `effects`, and a completion
/// if its value is of the type `result`. Anything else ends the computation.
pub open spec fn settled(effects: Seq<KindSig>, result: Ty, outcome: Result<Step, ProtocolError>) -> (
    Phase,
    Result<Step, ProtocolError>,
) {
    match outcome {
        Ok(Step::Suspended(c)) => if carries(effects, c) {
            (Phase::Suspended { slot: c.slot, op: c.item.op }, outcome)
        } else {
            (Phase::Complete, Err(ProtocolError::Malformed))
        },
        Ok(Step::Complete(v)) => if v.spec_ty() == result {
            (Phase::Complete, outcome)
        } else {
            (Phase::Complete, Err(ProtocolError::Malformed))
        },
        Err(e) => (Phase::Complete, outcome),
    }
}

/// `injection` answers the suspension that `phase` records: it is tagged with
/// the same kind and the same operation, and holds a value of the type that
/// the operation expects back.
pub open spec fn awaited(effects: Seq<KindSig>, phase: Phase, injection: InjectionCarrier) -> bool {
    match phase {
        Phase::Suspended { slot, op } => {
            &&& injection.slot == slot
            &&& injection.item.op == op
            &&& carries_answer(effects, injection)
        },
        _ => false,
    }
}

/// Only an injection of the kind and for the operation that suspended is
/// awaited. An injection that bears the name of another kind is not, whatever
/// its tag, its operation and its value are.
pub proof fn lemma_awaited_is_of_the_pending_kind(
    effects: Seq<KindSig>,
    phase: Phase,
    injection: InjectionCarrier,
)
    requires
        awaited(effects, phase, injection),
    ensures
        phase matches Phase::Suspended { slot, op } && {
            &&& slot < effects.len()
            &&& injection.slot == slot
            &&& injection.item.kind@ == effects[slot as int].name
            &&& injection.item.op == op
            &&& op < effects[slot as int].ops.len()
            &&& injection.item.value.spec_ty() == effects[slot as int].ops[op as int].result
        },
{
}

impl<B: Effectful> Model<B> {
    /// The computation after an attempt to start it, and what the driver is told.
    pub open spec fn started(self) -> (Self, Result<Step, ProtocolError>) {
        match self.phase {
            Phase::Fresh => {
                let (body, outcome) = self.body.started();
                let (phase, r) = settled(self.effects, self.result, outcome);
                (Model { phase, body, ..self }, r)
            },
            Phase::Suspended { .. } => (self, Err(ProtocolError::TagMismatch)),
            Phase::Complete => (self, Err(ProtocolError::ResumeAfterComplete)),
        }
    }

    /// The computation after an attempt to resume it with `injection`, and
    /// what the driver is told.
    pub open spec fn resumed(self, injection: InjectionCarrier) -> (Self, Result<Step, ProtocolError>) {
        match self.phase {
            Phase::Complete => (self, Err(ProtocolError::ResumeAfterComplete)),
            _ => if awaited(self.effects, self.phase, injection) {
                let (body, outcome) = self.body.resumed(injection);
                let (phase, r) = settled(self.effects, self.result, outcome);
                (Model { phase, body, ..self }, r)
            } else {
                (self, Err(ProtocolError::TagMismatch))
            },
        }
    }
}

/// Decides what becomes of what a body's run gave: the phase that the
/// computation is in afterwards, and what the driver is told.
pub fn settle(effects: &EffectList, result: Ty, outcome: Result<Step, ProtocolError>) -> (r: (
    Phase,
    Result<Step, ProtocolError>,
))
    ensures
        r == settled(effects@, result, outcome),
{
    match outcome {
        Ok(Step::Suspended(c)) => {
            if effects.carries(&c) {
                (Phase::Suspended { slot: c.slot, op: c.item.op }, Ok(Step::Suspended(c)))
            } else {
                (Phase::Complete, Err(ProtocolError::Malformed))
            }
        },
        Ok(Step::Complete(v)) => {
            if v.ty() == result {
                (Phase::Complete, Ok(Step::Complete(v)))
            } else {
                (Phase::Complete, Err(ProtocolError::Malformed))
            }
        },
        Err(e) => (Phase::Complete, Err(e)),
    }
}

/// An effectful computation: a body under the guard of the protocol, with the
/// effect-kind list that it may suspend on and the type of its result.
pub struct Computation<B> {
    effects: EffectList,
    result: Ty,
    phase: Phase,
    body: B,
}

impl<B> View for Computation<B> {
    type V = Model<B>;

    closed spec fn view(&self) -> Model<B> {
        Model { effects: self.effects@, result: self.result, phase: self.phase, body: self.body }
    }
}

/// Makes a fresh computation of `body`, over the effect kinds `effects` and
/// with a result of type `result`.
pub fn effectful<B: Effectful>(effects: EffectList, result: Ty, body: B) -> (c: Computation<B>)
    ensures
        c@ == (Model { effects: effects@, result, phase: Phase::Fresh, body }),
{
    Computation { effects, result, phase: Phase::Fresh, body }
}

impl<B> Computation<B> {
    /// The effect kinds that the computation may suspend on.
    pub fn effects(&self) -> (r: &EffectList)
        ensures
            r@ == self@.effects,
            r.wf(),
    {
        proof {
            use_type_invariant(&self.effects);
        }
        &self.effects
    }

    /// The type of the computation's result.
    pub fn result(&self) -> (r: Ty)
        ensures
            r == self@.result,
    {
        self.result
    }

    /// The phase that the computation is in.
    pub fn phase(&self) -> (r: Phase)
        ensures
            r == self@.phase,
    {
        self.phase
    }

    /// The body of the computation, as it stands.
    pub fn body(&self) -> (r: &B)
        ensures
            *r == self@.body,
    {
        &self.body
    }
}

impl<B: Effectful> Computation<B> {
    /// Begins the computation and runs it to its first suspension or to its end.
    ///
    /// Only a fresh computation starts. One that is suspended is told
    /// `TagMismatch` and one that is complete `ResumeAfterComplete`; neither
    /// is touched.
    pub fn start(&mut self) -> (r: Result<Step, ProtocolError>)
        ensures
            (final(self)@, r) == old(self)@.started(),
    {
        match self.phase {
            Phase::Fresh => {
                let outcome = self.body.start();
                let (phase, r) = settle(&self.effects, self.result, outcome);
                self.phase = phase;
                r
            },
            Phase::Suspended { .. } => Err(ProtocolError::TagMismatch),
            Phase::Complete => Err(ProtocolError::ResumeAfterComplete),
        }
    }

    /// Resumes the computation with `injection` and runs it to its next
    /// suspension or to its end.
    ///
    /// Only a suspended computation resumes, and only with the injection that
    /// answers the pending invocation. Otherwise the computation is not
    /// touched: one that is complete is told `ResumeAfterComplete`, any other
    /// `TagMismatch`.
    pub fn resume(&mut self, injection: InjectionCarrier) -> (r: Result<Step, ProtocolError>)
        ensures
            (final(self)@, r) == old(self)@.resumed(injection),
    {
        match self.phase {
            Phase::Complete => Err(ProtocolError::ResumeAfterComplete),
            Phase::Fresh => Err(ProtocolError::TagMismatch),
            Phase::Suspended { slot, op } => {
                if injection.slot == slot && injection.item.op == op && self.effects.carries_answer(
                    &injection,
                ) {
                    let outcome = self.body.resume(injection);
                    let (phase, r) = settle(&self.effects, self.result, outcome);
                    self.phase = phase;
                    r
                } else {
                    Err(ProtocolError::TagMismatch)
                }
            },
        }
    }
}

} // verus!
