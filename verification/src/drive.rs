//! The drive loop: runs a computation against the handlers of its effect
//! kinds until one final result is there.

use std::ops::ControlFlow;
use vstd::prelude::*;
use crate::carrier::{EffectCarrier, InjectionCarrier, Tagged};
use crate::computation::{Computation, Effectful, Model, ProtocolError, Step};
use crate::decl::{Injection, KindSig};
use crate::handler::{Arms, Handler, HandlerModel};
use crate::value::Value;

verus! {

/// Why a drive gave no result.
#[derive(Debug, PartialEq, Eq)]
pub enum DriveError {
    /// The kind at this position of the computation's effect-kind list has no
    /// handler at the same position.
    Unhandled(usize),
    /// The protocol was broken.
    Protocol(ProtocolError),
    /// The computation was still suspended when the allowed number of
    /// suspensions had been handled. The suspension that is pending comes
    /// back, so that the drive can be taken up again from it.
    Exhausted(EffectCarrier),
}

/// Where one round of a drive led: the computation and the handlers after it,
/// and whether the drive is over, and with what, or goes on, and from which
/// step.
pub struct Advanced<B, A> {
    pub computation: Model<B>,
    pub handlers: Seq<HandlerModel<A>>,
    pub flow: ControlFlow<Result<Value, DriveError>, Result<Step, ProtocolError>>,
}

/// Where a drive ended: the computation and the handlers as it left them, and
/// what it returned.
pub struct Driven<B, A> {
    pub computation: Model<B>,
    pub handlers: Seq<HandlerModel<A>>,
    pub result: Result<Value, DriveError>,
}

/// What `handlers` are, in order.
pub open spec fn models<A>(handlers: Seq<Handler<A>>) -> Seq<HandlerModel<A>> {
    Seq::new(handlers.len(), |i: int| handlers[i]@)
}

/// The kind at position `i` of `effects` has its handler at position `i`.
pub open spec fn handled_at<A>(effects: Seq<KindSig>, handlers: Seq<HandlerModel<A>>, i: int) -> bool {
    0 <= i < handlers.len() && handlers[i].kind == effects[i]
}

/// Every kind of `effects` has its handler at the same position.
pub open spec fn covering<A>(effects: Seq<KindSig>, handlers: Seq<HandlerModel<A>>) -> bool {
    forall|i: int| 0 <= i < effects.len() ==> handled_at(effects, handlers, i)
}

/// The handlers after the suspension `c` was handed to the one at its tag,
/// and the answer: the injection carrier to resume with, tagged as `c` is, or
/// the result to stop with.
pub open spec fn dispatched<A: Arms>(handlers: Seq<HandlerModel<A>>, c: EffectCarrier) -> (
    Seq<HandlerModel<A>>,
    Result<ControlFlow<Value, InjectionCarrier>, ProtocolError>,
) {
    if c.slot < handlers.len() {
        let (h, out) = handlers[c.slot as int].handled(c.item);
        (
            handlers.update(c.slot as int, h),
            match out {
                Ok(ControlFlow::Continue(inj)) => Ok(
                    ControlFlow::Continue(Tagged { slot: c.slot, item: inj }),
                ),
                Ok(ControlFlow::Break(r)) => Ok(ControlFlow::Break(r)),
                Err(e) => Err(e),
            },
        )
    } else {
        (handlers, Err(ProtocolError::TagMismatch))
    }
}

/// Where one round of the drive leads that goes on from `step`.
///
/// A completion ends the drive with the computation's result. A suspension
/// goes to the handler at its tag: a break ends the drive with the handler's
/// result, if it is of the computation's result type, and the computation is
/// not run again; a continue resumes the computation with the injection, and
/// the drive goes on from the step that this gives. Any breach of the protocol
/// ends the drive at once.
pub open spec fn advanced<B: Effectful, A: Arms>(
    computation: Model<B>,
    handlers: Seq<HandlerModel<A>>,
    step: Result<Step, ProtocolError>,
) -> Advanced<B, A> {
    match step {
        Err(e) => Advanced {
            computation,
            handlers,
            flow: ControlFlow::Break(Err(DriveError::Protocol(e))),
        },
        Ok(Step::Complete(v)) => Advanced { computation, handlers, flow: ControlFlow::Break(Ok(v)) },
        Ok(Step::Suspended(c)) => {
            let (handlers, out) = dispatched(handlers, c);
            match out {
                Err(e) => Advanced {
                    computation,
                    handlers,
                    flow: ControlFlow::Break(Err(DriveError::Protocol(e))),
                },
                Ok(ControlFlow::Break(r)) => Advanced {
                    computation,
                    handlers,
                    flow: ControlFlow::Break(
                        if r.spec_ty() == computation.result {
                            Ok(r)
                        } else {
                            Err(DriveError::Protocol(ProtocolError::Malformed))
                        },
                    ),
                },
                Ok(ControlFlow::Continue(injection)) => {
                    let (computation, next) = computation.resumed(injection);
                    Advanced { computation, handlers, flow: ControlFlow::Continue(next) }
                },
            }
        },
    }
}

/// Where the drive ends that goes on from `step`, with `budget` suspensions
/// still allowed: round after round, until one ends the drive. A suspension
/// that comes when the budget is spent is handed back in `Exhausted`, and
/// neither the computation nor a handler is touched for it.
pub open spec fn driven<B: Effectful, A: Arms>(
    computation: Model<B>,
    handlers: Seq<HandlerModel<A>>,
    step: Result<Step, ProtocolError>,
    budget: nat,
) -> Driven<B, A>
    decreases budget,
{
    match step {
        Err(e) => Driven { computation, handlers, result: Err(DriveError::Protocol(e)) },
        Ok(Step::Complete(v)) => Driven { computation, handlers, result: Ok(v) },
        Ok(Step::Suspended(c)) => if budget == 0 {
            Driven { computation, handlers, result: Err(DriveError::Exhausted(c)) }
        } else {
            let round = advanced(computation, handlers, step);
            match round.flow {
                ControlFlow::Break(result) => Driven {
                    computation: round.computation,
                    handlers: round.handlers,
                    result,
                },
                ControlFlow::Continue(next) => driven(
                    round.computation,
                    round.handlers,
                    next,
                    (budget - 1) as nat,
                ),
            }
        },
    }
}

/// Where the drive of `computation` against `handlers` ends, from its start.
pub open spec fn driven_from_start<B: Effectful, A: Arms>(
    computation: Model<B>,
    handlers: Seq<HandlerModel<A>>,
    budget: nat,
) -> Driven<B, A> {
    let (computation, step) = computation.started();
    driven(computation, handlers, step, budget)
}

/// Handing a suspension to a handler changes what the arms hold, and nothing
/// else: each handler still answers the kind it answered.
pub proof fn lemma_dispatch_keeps_kinds<A: Arms>(handlers: Seq<HandlerModel<A>>, c: EffectCarrier)
    ensures
        dispatched(handlers, c).0.len() == handlers.len(),
        forall|i: int|
            0 <= i < handlers.len() ==> {
                &&& (#[trigger] dispatched(handlers, c).0[i]).kind == handlers[i].kind
                &&& dispatched(handlers, c).0[i].arm_of == handlers[i].arm_of
                &&& i != c.slot ==> dispatched(handlers, c).0[i] == handlers[i]
            },
{
}

/// Hands the suspension `c` to the handler at its tag.
///
/// Gives the injection carrier to resume with, tagged as `c` is, or the
/// result to stop with. Where no handler stands at the tag, nothing runs and
/// `TagMismatch` is reported.
pub fn dispatch<A: Arms>(handlers: &mut Vec<Handler<A>>, c: EffectCarrier) -> (r: Result<
    ControlFlow<Value, InjectionCarrier>,
    ProtocolError,
>)
    ensures
        (models(final(handlers)@), r) == dispatched(models(old(handlers)@), c),
{
    let slot = c.slot;
    if slot >= handlers.len() {
        return Err(ProtocolError::TagMismatch);
    }
    let out = handlers[slot].handle(c.item);
    proof {
        assert(models(handlers@) =~= models(old(handlers)@).update(slot as int, handlers@[slot as int]@));
    }
    match out {
        Ok(ControlFlow::Continue(inj)) => Ok(ControlFlow::Continue(Tagged { slot, item: inj })),
        Ok(ControlFlow::Break(r)) => Ok(ControlFlow::Break(r)),
        Err(e) => Err(e),
    }
}

/// The first kind of the computation's effect-kind list that has no handler
/// of its own at the same position of `handlers`, if there is one.
pub fn unhandled<B, A>(computation: &Computation<B>, handlers: &Vec<Handler<A>>) -> (r: Option<usize>)
    ensures
        match r {
            None => covering(computation@.effects, models(handlers@)),
            Some(i) => {
                &&& i < computation@.effects.len()
                &&& !handled_at(computation@.effects, models(handlers@), i as int)
                &&& forall|k: int| 0 <= k < i ==> handled_at(computation@.effects, models(handlers@), k)
            },
        },
{
    let effects = computation.effects();
    let mut i: usize = 0;
    while i < effects.len()
        invariant
            i <= effects@.len(),
            effects@ == computation@.effects,
            forall|k: int| 0 <= k < i ==> handled_at(effects@, models(handlers@), k),
        decreases effects@.len() - i,
    {
        if i >= handlers.len() || !handlers[i].kind().same(effects.kind(i).unwrap()) {
            return Some(i);
        }
        i += 1;
    }
    None
}

/// Takes the drive one round on from `step`: ends it where the step is a
/// completion or a breach, and else hands the suspension to the handler at its
/// tag and resumes the computation with the answer, or ends the drive with the
/// handler's break.
///
/// Gives the result of the drive, where this round ended it, or the step that
/// the next round goes on from.
pub fn advance<B: Effectful, A: Arms>(
    computation: &mut Computation<B>,
    handlers: &mut Vec<Handler<A>>,
    step: Result<Step, ProtocolError>,
) -> (flow: ControlFlow<Result<Value, DriveError>, Result<Step, ProtocolError>>)
    ensures
        (Advanced { computation: final(computation)@, handlers: models(final(handlers)@), flow })
            == advanced(old(computation)@, models(old(handlers)@), step),
{
    match step {
        Err(e) => ControlFlow::Break(Err(DriveError::Protocol(e))),
        Ok(Step::Complete(v)) => ControlFlow::Break(Ok(v)),
        Ok(Step::Suspended(c)) => match dispatch(handlers, c) {
            Err(e) => ControlFlow::Break(Err(DriveError::Protocol(e))),
            Ok(ControlFlow::Break(r)) => {
                if r.ty() == computation.result() {
                    ControlFlow::Break(Ok(r))
                } else {
                    ControlFlow::Break(Err(DriveError::Protocol(ProtocolError::Malformed)))
                }
            },
            Ok(ControlFlow::Continue(injection)) => ControlFlow::Continue(computation.resume(injection)),
        },
    }
}

/// Takes a drive up from `step` and runs it until one final result is there,
/// handling at most `budget` suspensions.
///
/// `step` is what the computation last gave: the suspension that an earlier
/// drive handed back in `Exhausted`, or what starting or resuming it returned.
pub fn drive_on<B: Effectful, A: Arms>(
    computation: &mut Computation<B>,
    handlers: &mut Vec<Handler<A>>,
    step: Result<Step, ProtocolError>,
    budget: usize,
) -> (r: Result<Value, DriveError>)
    ensures
        (Driven { computation: final(computation)@, handlers: models(final(handlers)@), result: r })
            == driven(old(computation)@, models(old(handlers)@), step, budget as nat),
        !(r matches Err(DriveError::Unhandled(_))),
{
    let ghost end = driven(computation@, models(handlers@), step, budget as nat);
    let mut current = step;
    let mut left = budget;
    loop
        invariant
            driven(computation@, models(handlers@), current, left as nat) == end,
            end == driven(old(computation)@, models(old(handlers)@), step, budget as nat),
        decreases left,
    {
        if left == 0 {
            return match current {
                Err(e) => Err(DriveError::Protocol(e)),
                Ok(Step::Complete(v)) => Ok(v),
                Ok(Step::Suspended(c)) => Err(DriveError::Exhausted(c)),
            };
        }
        left -= 1;
        match advance(computation, handlers, current) {
            ControlFlow::Break(result) => {
                return result;
            },
            ControlFlow::Continue(next) => {
                current = next;
            },
        }
    }
}

/// Drives `computation` against `handlers` until one final result is there.
///
/// `handlers` holds, for each kind of the computation's effect-kind list, the
/// handler of that kind at the same position; the drive does not begin where
/// one is missing. It starts the computation and hands each suspension to the
/// handler at its tag. On continue it resumes the computation with the
/// injection; on break it stops with the handler's result, and the computation
/// is not run again. A completion ends the drive with the computation's
/// result.
///
/// At most `budget` suspensions are handled; a computation that suspends once
/// more is left suspended, and the drive hands the pending suspension back in
/// `Exhausted`.
///
/// What the drive returns, and how it leaves the computation and the
/// handlers, are functions of how it found them and of `budget`: the same
/// computation against the same handlers always ends the same.
pub fn drive<B: Effectful, A: Arms>(
    computation: &mut Computation<B>,
    handlers: &mut Vec<Handler<A>>,
    budget: usize,
) -> (r: Result<Value, DriveError>)
    ensures
        match r {
            Err(DriveError::Unhandled(i)) => {
                &&& i < old(computation)@.effects.len()
                &&& !handled_at(old(computation)@.effects, models(old(handlers)@), i as int)
                &&& forall|k: int|
                    0 <= k < i ==> handled_at(old(computation)@.effects, models(old(handlers)@), k)
                &&& final(computation)@ == old(computation)@
                &&& models(final(handlers)@) == models(old(handlers)@)
            },
            _ => {
                &&& covering(old(computation)@.effects, models(old(handlers)@))
                &&& (Driven {
                    computation: final(computation)@,
                    handlers: models(final(handlers)@),
                    result: r,
                }) == driven_from_start(old(computation)@, models(old(handlers)@), budget as nat)
            },
        },
{
    match unhandled(computation, handlers) {
        Some(i) => Err(DriveError::Unhandled(i)),
        None => {
            let step = computation.start();
            drive_on(computation, handlers, step, budget)
        },
    }
}

/// A break short-circuits the drive. Where the handler of the first
/// suspension breaks with a result, the drive ends with that result (if it is
/// of the computation's result type). The computation is left as its first
/// suspension left it, so it was never resumed; and the handlers are left as
/// that one dispatch left them, so no handler was given anything else.
pub proof fn lemma_break_short_circuits<B: Effectful, A: Arms>(
    computation: Model<B>,
    handlers: Seq<HandlerModel<A>>,
    budget: nat,
)
    requires
        budget > 0,
        computation.started().1 matches Ok(Step::Suspended(c)) && dispatched(handlers, c).1 matches Ok(
            ControlFlow::Break(_),
        ),
    ensures
        ({
            let (suspended, step) = computation.started();
            let c = step->Ok_0->Suspended_0;
            let (after, out) = dispatched(handlers, c);
            let end = driven_from_start(computation, handlers, budget);
            &&& out matches Ok(ControlFlow::Break(r)) && end.result == if r.spec_ty()
                == computation.result {
                Ok::<Value, DriveError>(r)
            } else {
                Err::<Value, DriveError>(DriveError::Protocol(ProtocolError::Malformed))
            }
            &&& end.computation == suspended
            &&& end.handlers == after
            &&& forall|i: int| 0 <= i < handlers.len() && i != c.slot ==> end.handlers[i] == handlers[i]
        }),
{
    let c = computation.started().1->Ok_0->Suspended_0;
    lemma_dispatch_keeps_kinds(handlers, c);
}

/// A drive whose budget ran out can be taken up again. Going on from the
/// suspension that came back in `Exhausted`, with the computation and the
/// handlers as the first drive left them, ends where one drive with both
/// budgets together would have ended.
pub proof fn lemma_drive_can_be_taken_up<B: Effectful, A: Arms>(
    computation: Model<B>,
    handlers: Seq<HandlerModel<A>>,
    step: Result<Step, ProtocolError>,
    first: nat,
    more: nat,
)
    requires
        driven(computation, handlers, step, first).result matches Err(DriveError::Exhausted(_)),
    ensures
        ({
            let stopped = driven(computation, handlers, step, first);
            let pending = stopped.result->Err_0->Exhausted_0;
            driven(stopped.computation, stopped.handlers, Ok(Step::Suspended(pending)), more) == driven(
                computation,
                handlers,
                step,
                first + more,
            )
        }),
    decreases first,
{
    if first > 0 {
        if step matches Ok(Step::Suspended(_)) {
            let round = advanced(computation, handlers, step);
            match round.flow {
                ControlFlow::Continue(next) => {
                    lemma_drive_can_be_taken_up(
                        round.computation,
                        round.handlers,
                        next,
                        (first - 1) as nat,
                        more,
                    );
                },
                ControlFlow::Break(_) => {},
            }
        }
    }
}

/// The injection carrier that answers the suspension `c` with `value`.
pub open spec fn answer_to(c: EffectCarrier, value: Value) -> InjectionCarrier {
    Tagged { slot: c.slot, item: Injection { kind: c.item.kind, op: c.item.op, value } }
}

/// Where a computation is after `values` were injected into it one after the
/// other, each for the suspension that was pending, going on from `step`.
///
/// A value left over when the computation has completed is a resume after
/// completion; a breach of the protocol ends the replay where it happens.
pub open spec fn replayed<B: Effectful>(
    computation: Model<B>,
    step: Result<Step, ProtocolError>,
    values: Seq<Value>,
) -> (Model<B>, Result<Step, ProtocolError>)
    decreases values.len(),
{
    if values.len() == 0 {
        (computation, step)
    } else {
        match step {
            Ok(Step::Suspended(c)) => {
                let (next, step) = computation.resumed(answer_to(c, values.first()));
                replayed(next, step, values.drop_first())
            },
            Ok(Step::Complete(_)) => (computation, Err(ProtocolError::ResumeAfterComplete)),
            Err(_) => (computation, step),
        }
    }
}

/// Starts `computation` and injects `values` into it one after the other,
/// each tagged for the suspension that is pending. Returns where that leaves
/// the computation: its last step.
///
/// The outcome is a function of the computation and of the values: the same
/// sequence of injections always leads the same computation to the same end.
pub fn replay<B: Effectful>(computation: &mut Computation<B>, values: Vec<Value>) -> (r: Result<
    Step,
    ProtocolError,
>)
    ensures
        (final(computation)@, r) == replayed(
            old(computation)@.started().0,
            old(computation)@.started().1,
            values@,
        ),
{
    let mut step = computation.start();
    let ghost end = replayed(computation@, step, values@);
    let mut rest = values;
    while rest.len() > 0
        invariant
            replayed(computation@, step, rest@) == end,
            end == replayed(old(computation)@.started().0, old(computation)@.started().1, values@),
        decreases rest.len(),
    {
        let ghost before = rest@;
        let value = rest.remove(0);
        proof {
            assert(before.first() == value);
            assert(before.drop_first() =~= rest@);
        }
        match step {
            Ok(Step::Suspended(c)) => {
                let answer = Tagged {
                    slot: c.slot,
                    item: Injection { kind: c.item.kind, op: c.item.op, value },
                };
                step = computation.resume(answer);
            },
            Ok(Step::Complete(_)) => {
                return Err(ProtocolError::ResumeAfterComplete);
            },
            Err(e) => {
                return Err(e);
            },
        }
    }
    step
}

} // verus!
