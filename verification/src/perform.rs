//! The smallest effectful computation: it performs one invocation and
//! completes with the value that is injected for it.

use vstd::prelude::*;
use crate::carrier::{injected, lemma_tag_fidelity, list_wf, EffectCarrier, EffectList, InjectionCarrier, Tagged};
use crate::computation::{effectful, Computation, Effectful, Model, Phase, ProtocolError, Step};
use crate::decl::{Injection, Invocation, KindSig};
use crate::value::Value;

verus! {

/// The body that suspends once, on the carrier it holds, and completes with
/// the value of the injection it is resumed with.
pub struct Perform {
    pub pending: Option<EffectCarrier>,
}

impl Effectful for Perform {
    open spec fn started(self) -> (Self, Result<Step, ProtocolError>) {
        match self.pending {
            Some(c) => (Perform { pending: None }, Ok(Step::Suspended(c))),
            None => (self, Err(ProtocolError::ResumeAfterComplete)),
        }
    }

    open spec fn resumed(self, injection: InjectionCarrier) -> (Self, Result<Step, ProtocolError>) {
        (self, Ok(Step::Complete(injection.item.value)))
    }

    fn start(&mut self) -> (r: Result<Step, ProtocolError>) {
        match self.pending.take() {
            Some(c) => Ok(Step::Suspended(c)),
            None => Err(ProtocolError::ResumeAfterComplete),
        }
    }

    fn resume(&mut self, injection: InjectionCarrier) -> (r: Result<Step, ProtocolError>) {
        Ok(Step::Complete(injection.item.value))
    }
}

/// The computation over `effects` that `perform` makes of the carrier `c`.
pub open spec fn performing(effects: Seq<KindSig>, c: EffectCarrier) -> Model<Perform> {
    Model {
        effects,
        result: effects[c.slot as int].ops[c.item.op as int].result,
        phase: Phase::Fresh,
        body: Perform { pending: Some(c) },
    }
}

/// Makes the computation over `effects` that performs `invocation` and
/// completes with what is injected for it; its result is of the type that the
/// invoked operation expects back.
///
/// Hands `invocation` back where no kind of `effects` admits it.
pub fn perform(effects: EffectList, invocation: Invocation) -> (r: Result<
    Computation<Perform>,
    Invocation,
>)
    ensures
        match injected(effects@, invocation) {
            Some(c) => r matches Ok(computation) && computation@ == performing(effects@, c),
            None => r matches Err(inv) && inv == invocation,
        },
{
    match effects.inject(invocation) {
        Ok(c) => {
            let result = effects.kind(c.slot).unwrap().operation(c.item.op).unwrap().result;
            Ok(effectful(effects, result, Perform { pending: Some(c) }))
        },
        Err(inv) => Err(inv),
    }
}

/// What performing does. The computation suspends on the invocation, in its
/// carrier over the list, and when it is resumed with the injection of the
/// same kind that holds `value` for the invoked operation, it completes with
/// `value`.
pub proof fn lemma_perform_completes_with_injection(
    effects: Seq<KindSig>,
    invocation: Invocation,
    value: Value,
)
    requires
        list_wf(effects),
        injected(effects, invocation) is Some,
        value.spec_ty() == performing(effects, injected(effects, invocation)->0).result,
    ensures
        ({
            let c = injected(effects, invocation)->0;
            let fresh = performing(effects, c);
            let answer = Tagged { slot: c.slot, item: Injection { kind: c.item.kind, op: c.item.op, value } };
            &&& c.item == invocation
            &&& fresh.started().1 == Ok::<Step, ProtocolError>(Step::Suspended(c))
            &&& fresh.started().0.phase == (Phase::Suspended { slot: c.slot, op: c.item.op })
            &&& fresh.started().0.resumed(answer).1 == Ok::<Step, ProtocolError>(Step::Complete(value))
            &&& fresh.started().0.resumed(answer).0.phase == Phase::Complete
        }),
{
    lemma_tag_fidelity(effects, invocation, invocation.kind@);
}

} // verus!
