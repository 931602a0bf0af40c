//! Handlers: for one effect kind, one arm per operation, each answering an
//! invocation with an injection to continue with or a result to stop with.

use std::ops::ControlFlow;
use vstd::prelude::*;
use crate::computation::ProtocolError;
use crate::decl::{EffectKind, Injection, Invocation, KindSig};
use crate::names::{distinct, lemma_position_absent, lemma_position_unique, named_at, position, repeats_at};
use crate::value::Value;

verus! {

/// The arms of a handler: the code that answers the operations of one effect
/// kind. Arm `arm` is given the arguments of an invocation and says whether
/// the computation continues, and with what injection, or the whole drive
/// stops, and with what result.
///
/// Arms are deterministic: what an arm gives, and the state it leaves, are
/// functions of the state before and of the arguments.
pub trait Arms: Sized {
    /// The state after arm `arm` ran on `args`, and what it gave.
    spec fn answered(self, arm: usize, args: Vec<Value>) -> (Self, ControlFlow<Value, Value>);

    /// Runs arm `arm` on the arguments `args`.
    fn answer(&mut self, arm: usize, args: Vec<Value>) -> (r: ControlFlow<Value, Value>)
        ensures
            (*final(self), r) == old(self).answered(arm, args),
    ;
}

/// Why a handler could not be made.
#[derive(Debug, PartialEq, Eq)]
pub enum HandlerError {
    /// The arm at this position names no operation of the kind.
    UnknownArm(usize),
    /// The arm at this position names the operation of an earlier arm.
    DuplicateArm(usize),
    /// No arm names the operation at this position of the kind.
    MissingArm(usize),
}

/// What a [`Handler`] is: the kind it handles, for each operation the
/// position of its arm, and the arms.
pub struct HandlerModel<A> {
    pub kind: KindSig,
    pub arm_of: Seq<usize>,
    pub arms: A,
}

/// The names in `names`, in order.
pub open spec fn name_views(names: Seq<String>) -> Seq<Seq<char>> {
    Seq::new(names.len(), |i: int| names[i]@)
}

/// The arm at position `j` names an operation of `kind`.
pub open spec fn known_arm(arms: Seq<Seq<char>>, kind: KindSig, j: int) -> bool {
    position(kind.op_names(), arms[j]) is Some
}

/// Some arm names the operation at position `p` of `kind`.
pub open spec fn has_arm(arms: Seq<Seq<char>>, kind: KindSig, p: int) -> bool {
    position(arms, kind.ops[p].name) is Some
}

/// `arm_of` gives, for each operation of `kind`, the position of the arm that
/// names it.
pub open spec fn covers(arms: Seq<Seq<char>>, kind: KindSig, arm_of: Seq<usize>) -> bool {
    &&& arm_of.len() == kind.ops.len()
    &&& forall|p: int|
        0 <= p < arm_of.len() ==> named_at(arms, kind.ops[p].name, (#[trigger] arm_of[p]) as int)
}

/// The arms up to position `j` each name an operation, and no two the same.
pub open spec fn arms_fit_before(arms: Seq<Seq<char>>, kind: KindSig, j: int) -> bool {
    forall|k: int|
        #![trigger known_arm(arms, kind, k)]
        #![trigger repeats_at(arms, k)]
        0 <= k < j ==> known_arm(arms, kind, k) && !repeats_at(arms, k)
}

impl<A: Arms> HandlerModel<A> {
    /// The handler after it was given `inv`, and what it answered.
    ///
    /// An invocation that is none of the handler's kind is refused. Else the
    /// arm of the invoked operation runs on the arguments. Where it continues,
    /// its value becomes the injection of this kind for that operation, if it
    /// is of the type that the operation expects back; where it breaks, its
    /// value is passed on as it is.
    pub open spec fn handled(self, inv: Invocation) -> (
        Self,
        Result<ControlFlow<Value, Injection>, ProtocolError>,
    ) {
        if !self.kind.admits(inv) {
            (self, Err(ProtocolError::TagMismatch))
        } else {
            let (arms, out) = self.arms.answered(self.arm_of[inv.op as int], inv.args);
            let next = HandlerModel { arms, ..self };
            match out {
                ControlFlow::Continue(v) => match self.kind.made(inv.kind, inv.op, v) {
                    Some(inj) => (next, Ok(ControlFlow::Continue(inj))),
                    None => (next, Err(ProtocolError::Malformed)),
                },
                ControlFlow::Break(r) => (next, Ok(ControlFlow::Break(r))),
            }
        }
    }
}

/// For each operation of a kind, the position of the arm that answers it.
struct ArmTable {
    kind: EffectKind,
    arm_of: Vec<usize>,
}

impl ArmTable {
    /// Every operation of the kind has the position of an arm.
    #[verifier::type_invariant]
    spec fn wf(self) -> bool {
        self.arm_of.len() == self.kind@.ops.len()
    }
}

/// A handler for one effect kind, with an arm for each of its operations.
pub struct Handler<A> {
    table: ArmTable,
    arms: A,
}

impl<A> View for Handler<A> {
    type V = HandlerModel<A>;

    closed spec fn view(&self) -> HandlerModel<A> {
        HandlerModel { kind: self.table.kind@, arm_of: self.table.arm_of@, arms: self.arms }
    }
}

/// Names that do not repeat are distinct.
proof fn lemma_no_repeats_distinct(names: Seq<Seq<char>>)
    requires
        forall|k: int| 0 <= k < names.len() ==> !repeats_at(names, k),
    ensures
        distinct(names),
{
    assert forall|i: int, j: int| 0 <= i < j < names.len() implies names[i] != names[j] by {
        if names[i] == names[j] {
            assert(repeats_at(names, j));
        }
    }
}

/// Makes the handler for `kind` whose arms, in order, answer the operations
/// named by `arm_names`.
///
/// Every arm must name an operation of the kind, no two arms the same one, and
/// every operation must have its arm. The first arm that breaks the first two
/// rules is reported; failing that, the first operation without an arm.
pub fn handler<A: Arms>(kind: EffectKind, arm_names: Vec<String>, arms: A) -> (r: Result<
    Handler<A>,
    HandlerError,
>)
    ensures
        match r {
            Ok(h) => {
                &&& h@.kind == kind@
                &&& h@.arms == arms
                &&& distinct(name_views(arm_names@))
                &&& arms_fit_before(name_views(arm_names@), kind@, arm_names.len() as int)
                &&& covers(name_views(arm_names@), kind@, h@.arm_of)
                &&& forall|p: int|
                    0 <= p < kind@.ops.len() ==> has_arm(name_views(arm_names@), kind@, p)
            },
            Err(HandlerError::UnknownArm(j)) => {
                &&& j < arm_names.len()
                &&& !known_arm(name_views(arm_names@), kind@, j as int)
                &&& arms_fit_before(name_views(arm_names@), kind@, j as int)
            },
            Err(HandlerError::DuplicateArm(j)) => {
                &&& j < arm_names.len()
                &&& known_arm(name_views(arm_names@), kind@, j as int)
                &&& repeats_at(name_views(arm_names@), j as int)
                &&& arms_fit_before(name_views(arm_names@), kind@, j as int)
            },
            Err(HandlerError::MissingArm(p)) => {
                &&& arms_fit_before(name_views(arm_names@), kind@, arm_names.len() as int)
                &&& p < kind@.ops.len()
                &&& !has_arm(name_views(arm_names@), kind@, p as int)
                &&& forall|q: int| 0 <= q < p ==> has_arm(name_views(arm_names@), kind@, q)
            },
        },
{
    proof {
        use_type_invariant(&kind);
    }
    let ghost names = name_views(arm_names@);
    let ghost ops = kind@.ops;
    let n_ops = kind.len();
    let mut found: Vec<Option<usize>> = Vec::new();
    while found.len() < n_ops
        invariant
            found.len() <= n_ops,
            forall|p: int| 0 <= p < found.len() ==> found@[p] is None,
        decreases n_ops - found.len(),
    {
        found.push(None);
    }
    let mut j: usize = 0;
    while j < arm_names.len()
        invariant
            j <= arm_names.len(),
            names == name_views(arm_names@),
            ops == kind@.ops,
            kind@.wf(),
            n_ops == ops.len(),
            found.len() == n_ops,
            arms_fit_before(names, kind@, j as int),
            forall|p: int|
                0 <= p < n_ops ==> match #[trigger] found@[p] {
                    Some(a) => a < j && names[a as int] == ops[p].name,
                    None => forall|k: int| 0 <= k < j ==> names[k] != ops[p].name,
                },
        decreases arm_names.len() - j,
    {
        match kind.find(arm_names[j].as_str()) {
            None => {
                return Err(HandlerError::UnknownArm(j));
            },
            Some(p) => {
                assert(named_at(kind@.op_names(), names[j as int], p as int));
                assert(ops[p as int].name == names[j as int]);
                if found[p].is_some() {
                    return Err(HandlerError::DuplicateArm(j));
                }
                assert(!repeats_at(names, j as int));
                assert(known_arm(names, kind@, j as int));
                assert forall|q: int| 0 <= q < n_ops && q != p implies names[j as int] != ops[q].name by {
                    if q < p {
                        assert(kind@.op_names()[q] != kind@.op_names()[p as int]);
                    } else {
                        assert(kind@.op_names()[p as int] != kind@.op_names()[q]);
                    }
                }
                found.set(p, Some(j));
            },
        }
        j += 1;
    }
    proof {
        lemma_no_repeats_distinct(names);
    }
    let mut arm_of: Vec<usize> = Vec::new();
    let mut p: usize = 0;
    while p < n_ops
        invariant
            p <= n_ops,
            names == name_views(arm_names@),
            ops == kind@.ops,
            n_ops == ops.len(),
            found.len() == n_ops,
            arm_of.len() == p,
            distinct(names),
            arms_fit_before(names, kind@, arm_names.len() as int),
            forall|q: int|
                0 <= q < n_ops ==> match #[trigger] found@[q] {
                    Some(a) => a < names.len() && names[a as int] == ops[q].name,
                    None => forall|k: int| 0 <= k < names.len() ==> names[k] != ops[q].name,
                },
            forall|q: int| 0 <= q < p ==> named_at(names, ops[q].name, (#[trigger] arm_of@[q]) as int),
        decreases n_ops - p,
    {
        match found[p] {
            None => {
                proof {
                    lemma_position_absent(names, ops[p as int].name);
                    assert forall|q: int| 0 <= q < p implies has_arm(names, kind@, q) by {
                        lemma_position_unique(names, ops[q].name, arm_of@[q] as int);
                    }
                }
                return Err(HandlerError::MissingArm(p));
            },
            Some(a) => {
                arm_of.push(a);
            },
        }
        p += 1;
    }
    proof {
        assert forall|q: int| 0 <= q < ops.len() implies has_arm(names, kind@, q) by {
            lemma_position_unique(names, ops[q].name, arm_of@[q] as int);
        }
    }
    Ok(Handler { table: ArmTable { kind, arm_of }, arms })
}

/// Handler coverage is exhaustive. Arms that leave an operation of the kind
/// without an arm cover the kind under no assignment, so no handler is made of
/// them: a handler exists only where every operation has its arm.
pub proof fn lemma_coverage_is_exhaustive(arms: Seq<Seq<char>>, kind: KindSig, arm_of: Seq<usize>, p: int)
    requires
        0 <= p < kind.ops.len(),
        !has_arm(arms, kind, p),
    ensures
        !covers(arms, kind, arm_of),
{
    if covers(arms, kind, arm_of) {
        assert(named_at(arms, kind.ops[p].name, arm_of[p] as int));
    }
}

impl<A> Handler<A> {
    /// The kind that the handler answers.
    pub fn kind(&self) -> (r: &EffectKind)
        ensures
            r@ == self@.kind,
    {
        &self.table.kind
    }

    /// The arms of the handler, as they stand.
    pub fn arms(&self) -> (r: &A)
        ensures
            *r == self@.arms,
    {
        &self.arms
    }
}

impl<A: Arms> Handler<A> {
    /// Answers the invocation `inv` with the arm of the operation it invokes.
    ///
    /// Gives the injection to continue with, of this kind and for that operation, or the
    /// result to stop with. An invocation that is none of this handler's kind
    /// is refused with `TagMismatch`, and no arm runs; an arm that continues
    /// with a value of another type than the operation expects back is
    /// reported as `Malformed`.
    pub fn handle(&mut self, inv: Invocation) -> (r: Result<ControlFlow<Value, Injection>, ProtocolError>)
        ensures
            (final(self)@, r) == old(self)@.handled(inv),
    {
        proof {
            use_type_invariant(&self.table);
        }
        if !self.table.kind.admits(&inv) {
            return Err(ProtocolError::TagMismatch);
        }
        let Invocation { kind, op, args } = inv;
        let arm = self.table.arm_of[op];
        match self.arms.answer(arm, args) {
            ControlFlow::Continue(value) => {
                if value.ty() == self.table.kind.operation(op).unwrap().result {
                    Ok(ControlFlow::Continue(Injection { kind, op, value }))
                } else {
                    Err(ProtocolError::Malformed)
                }
            },
            ControlFlow::Break(r) => Ok(ControlFlow::Break(r)),
        }
    }
}

} // verus!
