use effing::carrier::{EffectList, InjectionCarrier, Tagged};
use effing::computation::{settle, Computation, Effectful, Phase, ProtocolError, Step};
use effing::decl::{EffectKind, Injection, Invocation, Operation};
use effing::perform::perform;
use effing::value::{Ty, Value};
use effing::{effectful, effects};

fn ask() -> EffectKind {
    effects(
        "Ask".to_string(),
        vec![
            Operation { name: "number".to_string(), params: vec![], result: Ty::Int },
            Operation { name: "flag".to_string(), params: vec![Ty::Int], result: Ty::Bool },
        ],
    )
    .unwrap()
}

fn tell() -> EffectKind {
    effects("Tell".to_string(), vec![Operation { name: "say".to_string(), params: vec![Ty::Int], result: Ty::Unit }])
        .unwrap()
}

fn list() -> EffectList {
    EffectList::new(vec![ask(), tell()]).unwrap()
}

fn number() -> Step {
    Step::Suspended(list().inject(ask().invoke("number", vec![]).unwrap()).unwrap())
}

fn say(n: i64) -> Step {
    Step::Suspended(list().inject(tell().invoke("say", vec![Value::Int(n)]).unwrap()).unwrap())
}

fn answer(slot: usize, op: usize, value: Value) -> InjectionCarrier {
    let kind = if slot == 1 { "Tell" } else { "Ask" };
    Tagged { slot, item: Injection { kind: kind.to_string(), op, value } }
}

/// A body that gives out the steps it was made with, one per run, and keeps
/// what it was resumed with.
struct Script {
    steps: Vec<Result<Step, ProtocolError>>,
    seen: Vec<InjectionCarrier>,
    runs: usize,
}

impl Script {
    fn of(mut steps: Vec<Result<Step, ProtocolError>>) -> Computation<Script> {
        steps.reverse();
        effectful(list(), Ty::Int, Script { steps, seen: vec![], runs: 0 })
    }

    fn next(&mut self) -> Result<Step, ProtocolError> {
        self.runs += 1;
        self.steps.pop().unwrap_or(Err(ProtocolError::ResumeAfterComplete))
    }
}

impl Effectful for Script {
    fn started(self) -> (Self, Result<Step, ProtocolError>) {
        let mut me = self;
        let r = me.start();
        (me, r)
    }

    fn resumed(self, injection: InjectionCarrier) -> (Self, Result<Step, ProtocolError>) {
        let mut me = self;
        let r = me.resume(injection);
        (me, r)
    }

    fn start(&mut self) -> Result<Step, ProtocolError> {
        self.next()
    }

    fn resume(&mut self, injection: InjectionCarrier) -> Result<Step, ProtocolError> {
        self.seen.push(injection);
        self.next()
    }
}

#[test]
fn a_computation_goes_from_fresh_to_suspended_to_complete() {
    let mut c = Script::of(vec![Ok(number()), Ok(say(3)), Ok(Step::Complete(Value::Int(9)))]);
    assert_eq!(c.phase(), Phase::Fresh);
    assert_eq!(c.result(), Ty::Int);
    assert_eq!(c.effects().len(), 2);
    assert_eq!(c.start(), Ok(number()));
    assert_eq!(c.phase(), Phase::Suspended { slot: 0, op: 0 });
    assert_eq!(c.resume(answer(0, 0, Value::Int(3))), Ok(say(3)));
    assert_eq!(c.phase(), Phase::Suspended { slot: 1, op: 0 });
    assert_eq!(c.resume(answer(1, 0, Value::Unit)), Ok(Step::Complete(Value::Int(9))));
    assert_eq!(c.phase(), Phase::Complete);
    assert_eq!(c.body().seen, vec![answer(0, 0, Value::Int(3)), answer(1, 0, Value::Unit)]);
}

#[test]
fn a_computation_may_complete_without_suspending() {
    let mut c = Script::of(vec![Ok(Step::Complete(Value::Int(1)))]);
    assert_eq!(c.start(), Ok(Step::Complete(Value::Int(1))));
    assert_eq!(c.phase(), Phase::Complete);
}

#[test]
fn resuming_with_another_kind_is_a_tag_mismatch() {
    let mut c = Script::of(vec![Ok(number()), Ok(Step::Complete(Value::Int(9)))]);
    c.start().unwrap();
    assert_eq!(c.resume(answer(1, 0, Value::Unit)), Err(ProtocolError::TagMismatch));
    assert_eq!(c.phase(), Phase::Suspended { slot: 0, op: 0 });
    assert_eq!(c.body().runs, 1);
    assert!(c.body().seen.is_empty());
    // the computation was not touched: the right injection still resumes it
    assert_eq!(c.resume(answer(0, 0, Value::Int(3))), Ok(Step::Complete(Value::Int(9))));
}

#[test]
fn resuming_with_another_operation_is_a_tag_mismatch() {
    let mut c = Script::of(vec![Ok(number()), Ok(Step::Complete(Value::Int(9)))]);
    c.start().unwrap();
    assert_eq!(c.resume(answer(0, 1, Value::Bool(true))), Err(ProtocolError::TagMismatch));
    assert_eq!(c.body().runs, 1);
}

#[test]
fn resuming_with_a_value_of_the_wrong_type_is_a_tag_mismatch() {
    let mut c = Script::of(vec![Ok(number()), Ok(Step::Complete(Value::Int(9)))]);
    c.start().unwrap();
    assert_eq!(c.resume(answer(0, 0, Value::Bool(true))), Err(ProtocolError::TagMismatch));
    assert_eq!(c.resume(answer(7, 0, Value::Int(1))), Err(ProtocolError::TagMismatch));
    assert_eq!(c.body().runs, 1);
}

#[test]
fn resuming_a_fresh_computation_is_a_tag_mismatch() {
    let mut c = Script::of(vec![Ok(number())]);
    assert_eq!(c.resume(answer(0, 0, Value::Int(3))), Err(ProtocolError::TagMismatch));
    assert_eq!(c.phase(), Phase::Fresh);
    assert_eq!(c.body().runs, 0);
}

#[test]
fn starting_twice_is_a_tag_mismatch() {
    let mut c = Script::of(vec![Ok(number()), Ok(number())]);
    c.start().unwrap();
    assert_eq!(c.start(), Err(ProtocolError::TagMismatch));
    assert_eq!(c.phase(), Phase::Suspended { slot: 0, op: 0 });
    assert_eq!(c.body().runs, 1);
}

#[test]
fn driving_past_completion_fails() {
    let mut c = Script::of(vec![Ok(Step::Complete(Value::Int(1))), Ok(number())]);
    c.start().unwrap();
    assert_eq!(c.resume(answer(0, 0, Value::Int(3))), Err(ProtocolError::ResumeAfterComplete));
    assert_eq!(c.start(), Err(ProtocolError::ResumeAfterComplete));
    assert_eq!(c.phase(), Phase::Complete);
    assert_eq!(c.body().runs, 1);
}

#[test]
fn a_carrier_outside_the_list_ends_the_computation() {
    let forged = Tagged { slot: 2, item: Invocation { kind: "Ask".to_string(), op: 0, args: vec![] } };
    let mut c = Script::of(vec![Ok(Step::Suspended(forged)), Ok(number())]);
    assert_eq!(c.start(), Err(ProtocolError::Malformed));
    assert_eq!(c.phase(), Phase::Complete);
    assert_eq!(c.resume(answer(0, 0, Value::Int(3))), Err(ProtocolError::ResumeAfterComplete));
}

#[test]
fn a_carrier_with_the_wrong_tag_ends_the_computation() {
    let forged = Tagged { slot: 1, item: ask().invoke("number", vec![]).unwrap() };
    let mut c = Script::of(vec![Ok(number()), Ok(Step::Suspended(forged))]);
    c.start().unwrap();
    assert_eq!(c.resume(answer(0, 0, Value::Int(3))), Err(ProtocolError::Malformed));
    assert_eq!(c.phase(), Phase::Complete);
}

#[test]
fn a_result_of_the_wrong_type_ends_the_computation() {
    let mut c = Script::of(vec![Ok(Step::Complete(Value::Bool(true)))]);
    assert_eq!(c.start(), Err(ProtocolError::Malformed));
    assert_eq!(c.phase(), Phase::Complete);
}

#[test]
fn a_failure_of_the_body_ends_the_computation() {
    let mut c = Script::of(vec![Err(ProtocolError::TagMismatch), Ok(number())]);
    assert_eq!(c.start(), Err(ProtocolError::TagMismatch));
    assert_eq!(c.phase(), Phase::Complete);
}

#[test]
fn settling_decides_phase_and_report() {
    let l = list();
    assert_eq!(settle(&l, Ty::Int, Ok(say(1))), (Phase::Suspended { slot: 1, op: 0 }, Ok(say(1))));
    assert_eq!(
        settle(&l, Ty::Int, Ok(Step::Complete(Value::Int(2)))),
        (Phase::Complete, Ok(Step::Complete(Value::Int(2))))
    );
    assert_eq!(
        settle(&l, Ty::Text, Ok(Step::Complete(Value::Int(2)))),
        (Phase::Complete, Err(ProtocolError::Malformed))
    );
    assert_eq!(
        settle(&l, Ty::Int, Err(ProtocolError::ResumeAfterComplete)),
        (Phase::Complete, Err(ProtocolError::ResumeAfterComplete))
    );
    let one = EffectList::new(vec![ask()]).unwrap();
    assert_eq!(settle(&one, Ty::Int, Ok(say(1))), (Phase::Complete, Err(ProtocolError::Malformed)));
}

#[test]
fn performing_suspends_once_and_completes_with_the_injection() {
    let mut c = perform(list(), ask().invoke("flag", vec![Value::Int(4)]).unwrap()).unwrap();
    assert_eq!(c.result(), Ty::Bool);
    assert_eq!(c.phase(), Phase::Fresh);
    let step = c.start().unwrap();
    match step {
        Step::Suspended(carrier) => {
            assert_eq!(carrier.slot, 0);
            assert_eq!(carrier.item, ask().invoke("flag", vec![Value::Int(4)]).unwrap());
        }
        Step::Complete(_) => panic!("completed without performing"),
    }
    assert_eq!(c.resume(answer(0, 1, Value::Bool(true))), Ok(Step::Complete(Value::Bool(true))));
    assert_eq!(c.phase(), Phase::Complete);
}

#[test]
fn performing_a_foreign_invocation_is_refused() {
    let other = effects("Other".to_string(), vec![Operation { name: "x".to_string(), params: vec![], result: Ty::Unit }])
        .unwrap();
    let inv = other.invoke("x", vec![]).unwrap();
    match perform(list(), inv) {
        Err(back) => assert_eq!(back, other.invoke("x", vec![]).unwrap()),
        Ok(_) => panic!("an invocation outside the list was accepted"),
    }
}

#[test]
fn resuming_with_an_injection_of_a_foreign_kind_is_a_tag_mismatch() {
    let mut c = Script::of(vec![Ok(number()), Ok(Step::Complete(Value::Int(9)))]);
    c.start().unwrap();
    // the right tag, operation and type, but made by a kind of another name
    let foreign = effects(
        "Other".to_string(),
        vec![Operation { name: "number".to_string(), params: vec![], result: Ty::Int }],
    )
    .unwrap();
    let injection = Tagged { slot: 0, item: foreign.inject(0, Value::Int(3)).unwrap() };
    assert_eq!(c.resume(injection), Err(ProtocolError::TagMismatch));
    assert_eq!(c.body().runs, 1);
    let injection = Tagged { slot: 0, item: ask().inject(0, Value::Int(3)).unwrap() };
    assert_eq!(c.resume(injection), Ok(Step::Complete(Value::Int(9))));
}
