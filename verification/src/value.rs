use vstd::prelude::*;

verus! {

/// The type of a value that crosses the suspension boundary.
#[derive(Clone, Copy, Debug, PartialEq, Eq, Structural)]
pub enum Ty {
    Unit,
    Bool,
    Int,
    Text,
    /// A type of the user's own, known to the runtime by its number.
    Ext(u32),
}

/// A value that an operation takes as an argument, expects as its injection,
/// or that a computation completes with.
#[derive(Debug, PartialEq, Eq)]
pub enum Value {
    Unit,
    Bool(bool),
    Int(i64),
    Text(String),
    /// A value of the user's type of this number, in the user's own encoding.
    /// The runtime checks the number and carries the bytes as they are.
    Ext(u32, Vec<u8>),
}

/// The type that the name `name` stands for in a declaration, if it is the
/// name of one: `()`, `bool`, `i64` or `String`. A type of the user's own has
/// no name here: whoever declares it gives it its number.
pub open spec fn ty_named(name: Seq<char>) -> Option<Ty> {
    if name == "()"@ {
        Some(Ty::Unit)
    } else if name == "bool"@ {
        Some(Ty::Bool)
    } else if name == "i64"@ {
        Some(Ty::Int)
    } else if name == "String"@ {
        Some(Ty::Text)
    } else {
        None
    }
}

impl Ty {
    /// The type that `name` stands for in a declaration, if it is the name of one.
    pub fn named(name: &str) -> (r: Option<Ty>)
        ensures
            r == ty_named(name@),
    {
        let name = name.to_owned();
        if name == "()".to_owned() {
            Some(Ty::Unit)
        } else if name == "bool".to_owned() {
            Some(Ty::Bool)
        } else if name == "i64".to_owned() {
            Some(Ty::Int)
        } else if name == "String".to_owned() {
            Some(Ty::Text)
        } else {
            None
        }
    }

    /// The name that stands for the type in a declaration; a type of the
    /// user's own has none.
    pub fn name(&self) -> (r: Option<&'static str>)
        ensures
            match r {
                Some(name) => ty_named(name@) == Some(*self),
                None => *self is Ext,
            },
    {
        proof {
            reveal_strlit("()");
            reveal_strlit("bool");
            reveal_strlit("i64");
            reveal_strlit("String");
        }
        match self {
            Ty::Unit => {
                Some("()")
            },
            Ty::Bool => {
                assert("bool"@.len() != "()"@.len());
                Some("bool")
            },
            Ty::Int => {
                assert("i64"@.len() != "()"@.len());
                assert("i64"@.len() != "bool"@.len());
                Some("i64")
            },
            Ty::Text => {
                assert("String"@.len() != "()"@.len());
                assert("String"@.len() != "bool"@.len());
                assert("String"@.len() != "i64"@.len());
                Some("String")
            },
            Ty::Ext(_) => None,
        }
    }
}

impl Clone for Value {
    fn clone(&self) -> (r: Self)
        ensures
            r.spec_ty() == self.spec_ty(),
            match *self {
                Value::Ext(_, bytes) => r matches Value::Ext(_, copy) && copy@ == bytes@,
                _ => r == *self,
            },
    {
        match self {
            Value::Unit => Value::Unit,
            Value::Bool(b) => Value::Bool(*b),
            Value::Int(i) => Value::Int(*i),
            Value::Text(s) => Value::Text(s.clone()),
            Value::Ext(n, bytes) => Value::Ext(*n, bytes.clone()),
        }
    }
}

impl Value {
    /// The type that this value inhabits.
    pub open spec fn spec_ty(&self) -> Ty {
        match self {
            Value::Unit => Ty::Unit,
            Value::Bool(_) => Ty::Bool,
            Value::Int(_) => Ty::Int,
            Value::Text(_) => Ty::Text,
            Value::Ext(n, _) => Ty::Ext(*n),
        }
    }

    /// The type that this value inhabits.
    #[verifier::when_used_as_spec(spec_ty)]
    pub fn ty(&self) -> (t: Ty)
        ensures
            t == self.spec_ty(),
    {
        match self {
            Value::Unit => Ty::Unit,
            Value::Bool(_) => Ty::Bool,
            Value::Int(_) => Ty::Int,
            Value::Text(_) => Ty::Text,
            Value::Ext(n, _) => Ty::Ext(*n),
        }
    }
}

} // verus!
