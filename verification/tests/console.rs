use std::ops::ControlFlow;

use effing::carrier::{EffectList, InjectionCarrier};
use effing::computation::{Effectful, Phase, ProtocolError, Step};
use effing::effectful;
use effing::decl::{EffectKind, Operation};
use effing::effects;
use effing::drive::{drive, drive_on, DriveError};
use effing::handler::{Arms, Handler};
use effing::handler;
use effing::value::{Ty, Value};

fn console() -> EffectKind {
    effects(
        "Console".to_string(),
        vec![
            Operation { name: "read".to_string(), params: vec![], result: Ty::Text },
            Operation { name: "write".to_string(), params: vec![Ty::Text], result: Ty::Unit },
        ],
    )
    .unwrap()
}

fn text(s: &str) -> Value {
    Value::Text(s.to_string())
}

/// Writes a prompt, reads a line, and completes with the line in upper case.
struct Shout {
    effects: EffectList,
    at: u8,
}

impl Shout {
    fn new() -> Shout {
        Shout { effects: EffectList::new(vec![console()]).unwrap(), at: 0 }
    }

    fn perform(&self, op: &str, args: Vec<Value>) -> Result<Step, ProtocolError> {
        let kind = self.effects.kind(0).unwrap();
        let invocation = kind.invoke(op, args).map_err(|_| ProtocolError::Malformed)?;
        let carrier = self.effects.inject(invocation).map_err(|_| ProtocolError::Malformed)?;
        Ok(Step::Suspended(carrier))
    }
}

impl Effectful for Shout {
    fn started(self) -> (Self, Result<Step, ProtocolError>) {
        let mut me = self;
        let r = me.start();
        (me, r)
    }

    fn resumed(self, injection: InjectionCarrier) -> (Self, Result<Step, ProtocolError>) {
        let mut me = self;
        let r = me.resume(injection);
        (me, r)
    }

    fn start(&mut self) -> Result<Step, ProtocolError> {
        self.at = 1;
        self.perform("write", vec![text("prompt")])
    }

    fn resume(&mut self, injection: InjectionCarrier) -> Result<Step, ProtocolError> {
        match self.at {
            1 => {
                self.at = 2;
                self.perform("read", vec![])
            }
            2 => {
                self.at = 3;
                match injection.item.value {
                    Value::Text(line) => Ok(Step::Complete(Value::Text(line.to_uppercase()))),
                    _ => Err(ProtocolError::TagMismatch),
                }
            }
            _ => Err(ProtocolError::ResumeAfterComplete),
        }
    }
}

/// Records what is written; answers a read as it was told to.
struct Desk {
    written: Vec<String>,
    reads: u32,
    on_read: ControlFlow<Value, Value>,
}

impl Arms for Desk {
    fn answered(self, arm: usize, args: Vec<Value>) -> (Self, ControlFlow<Value, Value>) {
        let mut me = self;
        let r = me.answer(arm, args);
        (me, r)
    }

    fn answer(&mut self, arm: usize, args: Vec<Value>) -> ControlFlow<Value, Value> {
        match arm {
            0 => {
                for a in args {
                    if let Value::Text(s) = a {
                        self.written.push(s);
                    }
                }
                ControlFlow::Continue(Value::Unit)
            }
            _ => {
                self.reads += 1;
                match &self.on_read {
                    ControlFlow::Continue(v) => ControlFlow::Continue(v.clone()),
                    ControlFlow::Break(v) => ControlFlow::Break(v.clone()),
                }
            }
        }
    }
}

fn desk(on_read: ControlFlow<Value, Value>) -> Vec<Handler<Desk>> {
    let arms = Desk { written: vec![], reads: 0, on_read };
    vec![handler(console(), vec!["write".to_string(), "read".to_string()], arms).unwrap()]
}

#[test]
fn console_scenario_runs_to_the_shouted_line() {
    let mut computation = effectful(EffectList::new(vec![console()]).unwrap(), Ty::Text, Shout::new());
    let mut handlers = desk(ControlFlow::Continue(text("hello")));
    let result = drive(&mut computation, &mut handlers, 10);
    assert_eq!(result, Ok(text("HELLO")));
    assert_eq!(handlers[0].arms().written, vec!["prompt".to_string()]);
    assert_eq!(handlers[0].arms().reads, 1);
    assert_eq!(computation.phase(), Phase::Complete);
}

#[test]
fn console_scenario_aborts_on_break() {
    let mut computation = effectful(EffectList::new(vec![console()]).unwrap(), Ty::Text, Shout::new());
    let mut handlers = desk(ControlFlow::Break(text("aborted")));
    let result = drive(&mut computation, &mut handlers, 10);
    assert_eq!(result, Ok(text("aborted")));
    assert_eq!(handlers[0].arms().written, vec!["prompt".to_string()]);
    assert_eq!(handlers[0].arms().reads, 1);
    assert_eq!(computation.phase(), Phase::Suspended { slot: 0, op: 0 });
    assert_eq!(computation.body().at, 2);
}

#[test]
fn drive_stops_when_the_budget_is_spent() {
    let mut computation = effectful(EffectList::new(vec![console()]).unwrap(), Ty::Text, Shout::new());
    let mut handlers = desk(ControlFlow::Continue(text("hello")));
    let pending = match drive(&mut computation, &mut handlers, 1) {
        Err(DriveError::Exhausted(pending)) => pending,
        other => panic!("the drive did not stop at its budget: {other:?}"),
    };
    assert_eq!(pending.item, console().invoke("read", vec![]).unwrap());
    assert_eq!(handlers[0].arms().written, vec!["prompt".to_string()]);
    assert_eq!(handlers[0].arms().reads, 0);
    // taken up from the pending suspension, the drive ends as it would have
    let result = drive_on(&mut computation, &mut handlers, Ok(Step::Suspended(pending)), 5);
    assert_eq!(result, Ok(text("HELLO")));
    assert_eq!(handlers[0].arms().written, vec!["prompt".to_string()]);
    assert_eq!(handlers[0].arms().reads, 1);
}
