//! Effect kinds: what is declared of a family of operations, the invocations
//! made of them and the injections that answer them.

use vstd::prelude::*;
use crate::names::{distinct, find_named, first_repeat, names_in, position, repeats_at, Named};
use crate::value::{Ty, Value};

verus! {

/// One operation of an effect kind: its name, the types of its arguments, and
/// the type of the injection that it expects back.
#[derive(Debug, PartialEq, Eq)]
pub struct Operation {
    pub name: String,
    pub params: Vec<Ty>,
    pub result: Ty,
}

/// What an [`Operation`] declares.
pub struct OpSig {
    pub name: Seq<char>,
    pub params: Seq<Ty>,
    pub result: Ty,
}

impl View for Operation {
    type V = OpSig;

    open spec fn view(&self) -> OpSig {
        OpSig { name: self.name@, params: self.params@, result: self.result }
    }
}

/// What an [`EffectKind`] declares: its name and its operations, in order.
pub struct KindSig {
    pub name: Seq<char>,
    pub ops: Seq<OpSig>,
}

/// One call of one operation of one effect kind, with the argument values.
#[derive(Debug, PartialEq, Eq)]
pub struct Invocation {
    pub kind: String,
    pub op: usize,
    pub args: Vec<Value>,
}

/// The value that answers one operation of one effect kind, tagged with the
/// name of the kind and the position of the operation within it.
#[derive(Debug, PartialEq, Eq)]
pub struct Injection {
    pub kind: String,
    pub op: usize,
    pub value: Value,
}

/// `args` are as many values as `params` has types, each of its type.
pub open spec fn typed(args: Seq<Value>, params: Seq<Ty>) -> bool {
    &&& args.len() == params.len()
    &&& forall|i: int| 0 <= i < args.len() ==> (#[trigger] args[i]).spec_ty() == params[i]
}

impl KindSig {
    /// The names of the operations, in order.
    pub open spec fn op_names(self) -> Seq<Seq<char>> {
        Seq::new(self.ops.len(), |i: int| self.ops[i].name)
    }

    /// No two operations share a name.
    pub open spec fn wf(self) -> bool {
        distinct(self.op_names())
    }

    /// `inv` is a call of one of these operations with arguments of the declared types.
    pub open spec fn admits(self, inv: Invocation) -> bool {
        &&& inv.kind@ == self.name
        &&& inv.op < self.ops.len()
        &&& typed(inv.args@, self.ops[inv.op as int].params)
    }

    /// The kind has an operation at position `op`, and it expects a value of
    /// the type of `value` back.
    pub open spec fn expects(self, op: usize, value: Value) -> bool {
        op < self.ops.len() && value.spec_ty() == self.ops[op as int].result
    }

    /// `inj` is an injection of this kind: it bears the kind's name, and
    /// answers one of its operations with a value of the declared type.
    pub open spec fn answers(self, inj: Injection) -> bool {
        &&& inj.kind@ == self.name
        &&& self.expects(inj.op, inj.value)
    }

    /// The injection of this kind that answers the operation at position `op`
    /// with `value`, where the operation expects such a value. It bears the
    /// kind's name, written as `label`.
    pub open spec fn made(self, label: String, op: usize, value: Value) -> Option<Injection> {
        if label@ == self.name && self.expects(op, value) {
            Some(Injection { kind: label, op, value })
        } else {
            None
        }
    }

    /// The value that `inj` holds for the operation at position `op`, if it
    /// answers that operation.
    pub open spec fn taken(self, op: int, inj: Injection) -> Option<Value> {
        if self.answers(inj) && inj.op == op {
            Some(inj.value)
        } else {
            None
        }
    }
}

/// Why a declaration was refused.
#[derive(Debug, PartialEq, Eq)]
pub enum DeclError {
    /// The operation at this position has the name of an earlier one.
    DuplicateOperation(usize),
}

/// Why an invocation could not be built.
#[derive(Debug, PartialEq, Eq)]
pub enum InvokeError {
    /// The effect kind declares no operation of that name.
    UnknownOperation,
    /// The operation takes another number of arguments.
    WrongArity,
    /// The argument at this position is not of the declared type.
    WrongType(usize),
}

/// A declared effect kind: a named family of operations with distinct names.
pub struct EffectKind {
    name: String,
    ops: Vec<Operation>,
}

impl View for EffectKind {
    type V = KindSig;

    closed spec fn view(&self) -> KindSig {
        KindSig { name: self.name@, ops: Seq::new(self.ops.len() as nat, |i: int| self.ops[i]@) }
    }
}

/// The signatures of `ops`, in order.
pub open spec fn sigs(ops: Seq<Operation>) -> Seq<OpSig> {
    Seq::new(ops.len(), |i: int| ops[i]@)
}

/// The names of `ops`, in order.
pub open spec fn names_of(ops: Seq<Operation>) -> Seq<Seq<char>> {
    Seq::new(ops.len(), |i: int| ops[i].name@)
}

/// Declares an effect kind with the given operations.
///
/// The declaration is refused where two operations share a name; the error
/// names the first operation that repeats an earlier one.
pub fn effects(name: String, ops: Vec<Operation>) -> (r: Result<EffectKind, DeclError>)
    ensures
        match r {
            Ok(kind) => {
                &&& distinct(names_of(ops@))
                &&& kind@ == (KindSig { name: name@, ops: sigs(ops@) })
                &&& kind.wf()
            },
            Err(DeclError::DuplicateOperation(j)) => {
                &&& repeats_at(names_of(ops@), j as int)
                &&& forall|k: int| 0 <= k < j ==> !repeats_at(names_of(ops@), k)
            },
        },
{
    let ghost names = names_of(ops@);
    assert(names_in(ops@) =~= names);
    match first_repeat(&ops) {
        Some(j) => {
            return Err(DeclError::DuplicateOperation(j));
        },
        None => {},
    }
    proof {
        let sig = KindSig { name: name@, ops: sigs(ops@) };
        assert(sig.op_names() =~= names);
        assert(sig.ops =~= Seq::new(ops.len() as nat, |i: int| ops[i]@));
    }
    Ok(EffectKind { name, ops })
}

/// Whether `a` and `b` hold the same types in the same order.
fn same_types(a: &Vec<Ty>, b: &Vec<Ty>) -> (r: bool)
    ensures
        r == (a@ == b@),
{
    if a.len() != b.len() {
        return false;
    }
    let mut i: usize = 0;
    while i < a.len()
        invariant
            a.len() == b.len(),
            i <= a.len(),
            forall|k: int| 0 <= k < i ==> a@[k] == b@[k],
        decreases a.len() - i,
    {
        if a[i] != b[i] {
            return false;
        }
        i += 1;
    }
    assert(a@ =~= b@);
    true
}

/// Whether `args` are of the types `params`: the position of the first value
/// that is not, or nothing.
fn first_ill_typed(args: &Vec<Value>, params: &Vec<Ty>) -> (r: Option<usize>)
    requires
        args.len() == params.len(),
    ensures
        match r {
            None => typed(args@, params@),
            Some(i) => {
                &&& i < args.len()
                &&& args@[i as int].spec_ty() != params@[i as int]
                &&& forall|k: int| 0 <= k < i ==> (#[trigger] args@[k]).spec_ty() == params@[k]
            },
        },
{
    let mut i: usize = 0;
    while i < args.len()
        invariant
            args.len() == params.len(),
            i <= args.len(),
            forall|k: int| 0 <= k < i ==> (#[trigger] args@[k]).spec_ty() == params@[k],
        decreases args.len() - i,
    {
        if args[i].ty() != params[i] {
            return Some(i);
        }
        i += 1;
    }
    None
}

impl Named for Operation {
    open spec fn name_of(&self) -> Seq<char> {
        self.name@
    }

    fn name_ref(&self) -> (r: &String) {
        &self.name
    }
}

impl Clone for Operation {
    fn clone(&self) -> (r: Self)
        ensures
            r@ == self@,
    {
        let params = self.params.clone();
        assert(params@ =~= self.params@);
        Operation { name: self.name.clone(), params, result: self.result }
    }
}

impl EffectKind {
    /// No two operations of the kind share a name.
    #[verifier::type_invariant]
    pub open spec fn wf(self) -> bool {
        self@.wf()
    }

    /// The name of the kind.
    pub fn name(&self) -> (r: &String)
        ensures
            r@ == self@.name,
    {
        &self.name
    }

    /// How many operations the kind declares.
    pub fn len(&self) -> (r: usize)
        ensures
            r == self@.ops.len(),
    {
        self.ops.len()
    }

    /// The operation at position `op`, if the kind has that many.
    pub fn operation(&self, op: usize) -> (r: Option<&Operation>)
        ensures
            match r {
                Some(operation) => op < self@.ops.len() && operation@ == self@.ops[op as int],
                None => op >= self@.ops.len(),
            },
    {
        if op < self.ops.len() {
            Some(&self.ops[op])
        } else {
            None
        }
    }

    /// The position of the operation named `op`, if the kind declares one.
    pub fn find(&self, op: &str) -> (r: Option<usize>)
        ensures
            match r {
                Some(i) => position(self@.op_names(), op@) == Some(i as int),
                None => position(self@.op_names(), op@) is None,
            },
    {
        proof {
            use_type_invariant(self);
            assert(names_in(self.ops@) =~= self@.op_names());
        }
        let wanted = op.to_owned();
        find_named(&self.ops, &wanted)
    }

    /// Whether `inv` is a call of one of the kind's operations, with arguments
    /// of the declared types.
    pub fn admits(&self, inv: &Invocation) -> (r: bool)
        ensures
            r == self@.admits(*inv),
    {
        if !(inv.kind == self.name) || inv.op >= self.ops.len() {
            return false;
        }
        let params = &self.ops[inv.op].params;
        if inv.args.len() != params.len() {
            return false;
        }
        first_ill_typed(&inv.args, params).is_none()
    }

    /// Whether `inj` is an injection of this kind: it bears the kind's name and
    /// answers one of its operations with a value of the declared type.
    pub fn answers(&self, inj: &Injection) -> (r: bool)
        ensures
            r == self@.answers(*inj),
    {
        inj.kind == self.name && inj.op < self.ops.len() && inj.value.ty() == self.ops[inj.op].result
    }

    /// Builds the invocation of the operation named `op` with the arguments `args`.
    ///
    /// Fails where the kind declares no such operation, where the number of
    /// arguments is not the declared one, or where an argument is not of the
    /// declared type; the last error names the first such argument.
    pub fn invoke(&self, op: &str, args: Vec<Value>) -> (r: Result<Invocation, InvokeError>)
        ensures
            match position(self@.op_names(), op@) {
                None => r == Err::<Invocation, InvokeError>(InvokeError::UnknownOperation),
                Some(i) => match r {
                    Ok(inv) => {
                        &&& inv.kind@ == self@.name
                        &&& inv.op == i
                        &&& inv.args == args
                        &&& self@.admits(inv)
                    },
                    Err(InvokeError::UnknownOperation) => false,
                    Err(InvokeError::WrongArity) => args.len() != self@.ops[i].params.len(),
                    Err(InvokeError::WrongType(k)) => {
                        &&& args.len() == self@.ops[i].params.len()
                        &&& k < args.len()
                        &&& args@[k as int].spec_ty() != self@.ops[i].params[k as int]
                        &&& forall|m: int| 0 <= m < k ==> (#[trigger] args@[m]).spec_ty() == self@.ops[i].params[m]
                    },
                },
            },
    {
        match self.find(op) {
            None => Err(InvokeError::UnknownOperation),
            Some(i) => {
                let params = &self.ops[i].params;
                if args.len() != params.len() {
                    return Err(InvokeError::WrongArity);
                }
                match first_ill_typed(&args, params) {
                    Some(k) => Err(InvokeError::WrongType(k)),
                    None => Ok(Invocation { kind: self.name.clone(), op: i, args }),
                }
            },
        }
    }

    /// Wraps `value` as the injection that answers the operation at position `op`.
    ///
    /// Nothing is wrapped where the kind has no such operation or the value is
    /// not of the type that the operation expects back.
    pub fn inject(&self, op: usize, value: Value) -> (r: Option<Injection>)
        ensures
            match r {
                Some(inj) => inj.kind@ == self@.name && self@.made(inj.kind, op, value) == Some(inj),
                None => !self@.expects(op, value),
            },
    {
        if op < self.ops.len() && value.ty() == self.ops[op].result {
            Some(Injection { kind: self.name.clone(), op, value })
        } else {
            None
        }
    }

    /// Takes the value out of `inj` if it is an injection of this kind for the
    /// operation at position `op`; hands `inj` back if it is for another
    /// operation or of another kind.
    pub fn uninject(&self, op: usize, inj: Injection) -> (r: Result<Value, Injection>)
        ensures
            r == match self@.taken(op as int, inj) {
                Some(value) => Ok::<Value, Injection>(value),
                None => Err::<Value, Injection>(inj),
            },
    {
        if inj.op == op && self.answers(&inj) {
            Ok(inj.value)
        } else {
            Err(inj)
        }
    }

    /// Whether `other` declares the same: the same name and the same operations
    /// in the same order.
    pub fn same(&self, other: &EffectKind) -> (r: bool)
        ensures
            r == (self@ == other@),
    {
        if !(self.name == other.name) || self.ops.len() != other.ops.len() {
            assert(self@.name != other@.name || self@.ops.len() != other@.ops.len());
            return false;
        }
        let mut i: usize = 0;
        while i < self.ops.len()
            invariant
                self.ops.len() == other.ops.len(),
                i <= self.ops.len(),
                forall|k: int| 0 <= k < i ==> self@.ops[k] == other@.ops[k],
            decreases self.ops.len() - i,
        {
            let a = &self.ops[i];
            let b = &other.ops[i];
            if !(a.name == b.name) || a.result != b.result || !same_types(&a.params, &b.params) {
                assert(self@.ops[i as int] != other@.ops[i as int]);
                return false;
            }
            i += 1;
        }
        assert(self@.ops =~= other@.ops);
        true
    }
}

impl Clone for EffectKind {
    fn clone(&self) -> (r: Self)
        ensures
            r@ == self@,
    {
        proof {
            use_type_invariant(self);
        }
        let ops = self.ops.clone();
        proof {
            let sig = KindSig { name: self.name@, ops: Seq::new(ops.len() as nat, |i: int| ops[i]@) };
            assert(sig.ops =~= self@.ops);
        }
        EffectKind { name: self.name.clone(), ops }
    }
}

impl Named for EffectKind {
    open spec fn name_of(&self) -> Seq<char> {
        self@.name
    }

    fn name_ref(&self) -> (r: &String) {
        &self.name
    }
}

/// An injection answers its own operation of its own kind, and no other.
/// Taking it out for the operation it was made for gives the value back, of
/// the type that the operation declares. Taking it out for another operation
/// gives nothing; and a kind of another name neither counts it as its own nor
/// gives anything for it, whatever that kind declares.
pub proof fn lemma_injection_answers_its_operation(
    kind: KindSig,
    label: String,
    op: usize,
    value: Value,
    other_op: int,
    other_kind: KindSig,
)
    requires
        kind.made(label, op, value) is Some,
    ensures
        kind.answers(kind.made(label, op, value)->0),
        kind.taken(op as int, kind.made(label, op, value)->0) == Some(value),
        value.spec_ty() == kind.ops[op as int].result,
        other_op != op ==> kind.taken(other_op, kind.made(label, op, value)->0) is None,
        other_kind.name != kind.name ==> {
            &&& !other_kind.answers(kind.made(label, op, value)->0)
            &&& other_kind.taken(other_op, kind.made(label, op, value)->0) is None
        },
{
}

} // verus!
