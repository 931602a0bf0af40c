use std::ops::ControlFlow;

use effing::carrier::{EffectList, InjectionCarrier, Tagged};
use effing::compose::{do_, Do};
use effing::computation::{Effectful, Phase, ProtocolError, Step};
use effing::decl::{EffectKind, Injection, Operation};
use effing::drive::drive;
use effing::embed::EmbedError;
use effing::handler::{Arms, Handler};
use effing::perform::{perform, Perform};
use effing::value::{Ty, Value};
use effing::{effectful, effects, handler};

fn a() -> EffectKind {
    effects("A".to_string(), vec![Operation { name: "ask".to_string(), params: vec![Ty::Int], result: Ty::Int }])
        .unwrap()
}

fn b() -> EffectKind {
    effects("B".to_string(), vec![Operation { name: "tell".to_string(), params: vec![Ty::Int], result: Ty::Unit }])
        .unwrap()
}

/// The effect kinds of Y: B first, so that the tag of A differs between X and Y.
fn outer() -> EffectList {
    EffectList::new(vec![b(), a()]).unwrap()
}

fn inner() -> EffectList {
    EffectList::new(vec![a()]).unwrap()
}

/// X: asks A for a number and completes with it.
fn x() -> Do<Perform> {
    let x = perform(inner(), a().invoke("ask", vec![Value::Int(20)]).unwrap()).unwrap();
    do_(x, &outer()).unwrap()
}

/// Y: runs X as a step, tells B the number that X completed with plus one, and
/// completes with that.
struct Y {
    x: Do<Perform>,
    effects: EffectList,
    told: Option<i64>,
    resumed_self: u32,
}

impl Y {
    fn new() -> Y {
        Y { x: x(), effects: outer(), told: None, resumed_self: 0 }
    }

    fn after_x(&mut self, step: Result<Step, ProtocolError>) -> Result<Step, ProtocolError> {
        match step? {
            Step::Suspended(carrier) => Ok(Step::Suspended(carrier)),
            Step::Complete(Value::Int(n)) => {
                self.told = Some(n + 1);
                let tell = b().invoke("tell", vec![Value::Int(n + 1)]).map_err(|_| ProtocolError::Malformed)?;
                let carrier = self.effects.inject(tell).map_err(|_| ProtocolError::Malformed)?;
                Ok(Step::Suspended(carrier))
            }
            Step::Complete(_) => Err(ProtocolError::Malformed),
        }
    }
}

impl Effectful for Y {
    fn started(self) -> (Self, Result<Step, ProtocolError>) {
        let mut me = self;
        let r = me.start();
        (me, r)
    }

    fn resumed(self, injection: InjectionCarrier) -> (Self, Result<Step, ProtocolError>) {
        let mut me = self;
        let r = me.resume(injection);
        (me, r)
    }

    fn start(&mut self) -> Result<Step, ProtocolError> {
        let step = self.x.start();
        self.after_x(step)
    }

    fn resume(&mut self, injection: InjectionCarrier) -> Result<Step, ProtocolError> {
        match self.told {
            None => {
                let step = self.x.resume(injection);
                self.after_x(step)
            }
            Some(n) => {
                self.resumed_self += 1;
                Ok(Step::Complete(Value::Int(n)))
            }
        }
    }
}

/// One arm that notes what it is given and answers with a fixed value.
struct Note {
    seen: Vec<Vec<Value>>,
    answer: Value,
}

impl Arms for Note {
    fn answered(self, arm: usize, args: Vec<Value>) -> (Self, ControlFlow<Value, Value>) {
        let mut me = self;
        let r = me.answer(arm, args);
        (me, r)
    }

    fn answer(&mut self, _arm: usize, args: Vec<Value>) -> ControlFlow<Value, Value> {
        self.seen.push(args);
        ControlFlow::Continue(self.answer.clone())
    }
}

fn handlers() -> Vec<Handler<Note>> {
    vec![
        handler(b(), vec!["tell".to_string()], Note { seen: vec![], answer: Value::Unit }).unwrap(),
        handler(a(), vec!["ask".to_string()], Note { seen: vec![], answer: Value::Int(41) }).unwrap(),
    ]
}

#[test]
fn a_nested_effect_reaches_the_outer_handler_and_its_answer_the_inner_computation() {
    let mut y = effectful(outer(), Ty::Int, Y::new());
    let mut handlers = handlers();
    assert_eq!(drive(&mut y, &mut handlers, 10), Ok(Value::Int(42)));
    // the suspension of X on A reached the handler of A, once
    assert_eq!(handlers[1].arms().seen, vec![vec![Value::Int(20)]]);
    // X was resumed with the injection, and completed with it
    assert_eq!(y.body().x.inner().phase(), Phase::Complete);
    assert_eq!(y.body().told, Some(42));
    // Y's own effect went to the handler of B, and only then was Y itself resumed
    assert_eq!(handlers[0].arms().seen, vec![vec![Value::Int(42)]]);
    assert_eq!(y.body().resumed_self, 1);
}

#[test]
fn the_composition_driver_widens_outward_and_narrows_inward() {
    let mut x = x();
    let step = x.start().unwrap();
    let carrier = match step {
        Step::Suspended(carrier) => carrier,
        Step::Complete(_) => panic!("X completed without suspending"),
    };
    // A stands at position 0 of X's list and at position 1 of Y's
    assert_eq!(carrier.slot, 1);
    assert!(outer().carries(&carrier));
    assert_eq!(carrier.item, a().invoke("ask", vec![Value::Int(20)]).unwrap());
    assert_eq!(x.inner().phase(), Phase::Suspended { slot: 0, op: 0 });
    let answer = Tagged { slot: 1, item: Injection { kind: "A".to_string(), op: 0, value: Value::Int(5) } };
    assert_eq!(x.resume(answer), Ok(Step::Complete(Value::Int(5))));
    assert_eq!(x.inner().phase(), Phase::Complete);
}

#[test]
fn an_injection_for_a_kind_outside_the_inner_list_is_a_tag_mismatch() {
    let mut x = x();
    x.start().unwrap();
    let for_b = Tagged { slot: 0, item: Injection { kind: "B".to_string(), op: 0, value: Value::Unit } };
    assert_eq!(x.resume(for_b), Err(ProtocolError::TagMismatch));
    assert_eq!(x.inner().phase(), Phase::Suspended { slot: 0, op: 0 });
    let wrong_type = Tagged { slot: 1, item: Injection { kind: "A".to_string(), op: 0, value: Value::Unit } };
    assert_eq!(x.resume(wrong_type), Err(ProtocolError::TagMismatch));
    assert_eq!(x.inner().phase(), Phase::Suspended { slot: 0, op: 0 });
}

#[test]
fn resuming_a_finished_inner_computation_fails() {
    let mut x = x();
    x.start().unwrap();
    let answer = Tagged { slot: 1, item: Injection { kind: "A".to_string(), op: 0, value: Value::Int(5) } };
    x.resume(answer).unwrap();
    let again = Tagged { slot: 1, item: Injection { kind: "A".to_string(), op: 0, value: Value::Int(5) } };
    assert_eq!(x.resume(again), Err(ProtocolError::ResumeAfterComplete));
    assert_eq!(x.start(), Err(ProtocolError::ResumeAfterComplete));
}

#[test]
fn composing_needs_the_inner_kinds_in_the_outer_list() {
    let x = perform(inner(), a().invoke("ask", vec![Value::Int(20)]).unwrap()).unwrap();
    let only_b = EffectList::new(vec![b()]).unwrap();
    match do_(x, &only_b) {
        Err(e) => assert_eq!(e, EmbedError::Missing(0)),
        Ok(_) => panic!("composed over a list that lacks the inner kind"),
    }
    let x = perform(inner(), a().invoke("ask", vec![Value::Int(20)]).unwrap()).unwrap();
    let other_a = effects("A".to_string(), vec![Operation { name: "ask".to_string(), params: vec![], result: Ty::Int }])
        .unwrap();
    match do_(x, &EffectList::new(vec![other_a]).unwrap()) {
        Err(e) => assert_eq!(e, EmbedError::Conflict(0)),
        Ok(_) => panic!("composed over a list that declares the inner kind differently"),
    }
}
