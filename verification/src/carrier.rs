//! Tagged carriers: one invocation or injection of one effect kind out of an
//! ordered list of kinds, with the kind's position in the list as its tag.

use vstd::prelude::*;
use crate::decl::{EffectKind, Injection, Invocation, KindSig};
use crate::names::{distinct, find_named, first_repeat, names_in, position, repeats_at};

verus! {

/// An item together with the position, in an effect-kind list, of the kind
/// that it belongs to.
#[derive(Debug, PartialEq, Eq)]
pub struct Tagged<T> {
    pub slot: usize,
    pub item: T,
}

/// What a computation yields when it suspends: the invocation it waits on.
pub type EffectCarrier = Tagged<Invocation>;

/// What a suspended computation is resumed with: the injection that answers it.
pub type InjectionCarrier = Tagged<Injection>;

/// The names of `kinds`, in order.
pub open spec fn kind_names(kinds: Seq<KindSig>) -> Seq<Seq<char>> {
    Seq::new(kinds.len(), |i: int| kinds[i].name)
}

/// `kinds` is an effect-kind list: no two kinds share a name, and a machine
/// word can count them.
pub open spec fn list_wf(kinds: Seq<KindSig>) -> bool {
    &&& kinds.len() <= usize::MAX
    &&& distinct(kind_names(kinds))
}

/// The tag of `c` names a kind of `kinds`, and that kind admits the invocation.
pub open spec fn carries(kinds: Seq<KindSig>, c: EffectCarrier) -> bool {
    c.slot < kinds.len() && kinds[c.slot as int].admits(c.item)
}

/// The tag of `c` names a kind of `kinds`, and the injection answers that kind.
pub open spec fn carries_answer(kinds: Seq<KindSig>, c: InjectionCarrier) -> bool {
    c.slot < kinds.len() && kinds[c.slot as int].answers(c.item)
}

/// The carrier over `kinds` that holds `inv`, where one of the kinds admits it.
pub open spec fn injected(kinds: Seq<KindSig>, inv: Invocation) -> Option<EffectCarrier> {
    match position(kind_names(kinds), inv.kind@) {
        Some(i) => if kinds[i].admits(inv) {
            Some(Tagged { slot: i as usize, item: inv })
        } else {
            None
        },
        None => None,
    }
}

/// The invocation that `c` holds, where `c` is a carrier over `kinds` and its
/// tag names the kind called `kind`.
pub open spec fn extracted(kinds: Seq<KindSig>, kind: Seq<char>, c: EffectCarrier) -> Option<
    Invocation,
> {
    if carries(kinds, c) && kinds[c.slot as int].name == kind {
        Some(c.item)
    } else {
        None
    }
}

/// Why a list of effect kinds was refused.
#[derive(Debug, PartialEq, Eq)]
pub enum ListError {
    /// The kind at this position has the name of an earlier one.
    DuplicateKind(usize),
}

/// An ordered list of effect kinds with distinct names: the effects that a
/// computation may suspend on, and the tag space of its carriers.
pub struct EffectList {
    kinds: Vec<EffectKind>,
}

impl View for EffectList {
    type V = Seq<KindSig>;

    closed spec fn view(&self) -> Seq<KindSig> {
        Seq::new(self.kinds.len() as nat, |i: int| self.kinds[i]@)
    }
}

/// What `kinds` declare, in order.
pub open spec fn kind_sigs(kinds: Seq<EffectKind>) -> Seq<KindSig> {
    Seq::new(kinds.len(), |i: int| kinds[i]@)
}

impl EffectList {
    /// No two kinds share a name.
    #[verifier::type_invariant]
    pub open spec fn wf(self) -> bool {
        list_wf(self@)
    }

    /// Makes the list of the given kinds, in the given order.
    ///
    /// The list is refused where two kinds share a name; the error names the
    /// first kind that repeats an earlier one.
    pub fn new(kinds: Vec<EffectKind>) -> (r: Result<EffectList, ListError>)
        ensures
            match r {
                Ok(list) => {
                    &&& distinct(kind_names(kind_sigs(kinds@)))
                    &&& list@ == kind_sigs(kinds@)
                    &&& list.wf()
                },
                Err(ListError::DuplicateKind(j)) => {
                    &&& repeats_at(kind_names(kind_sigs(kinds@)), j as int)
                    &&& forall|k: int| 0 <= k < j ==> !repeats_at(kind_names(kind_sigs(kinds@)), k)
                },
            },
    {
        assert(names_in(kinds@) =~= kind_names(kind_sigs(kinds@)));
        match first_repeat(&kinds) {
            Some(j) => {
                return Err(ListError::DuplicateKind(j));
            },
            None => {},
        }
        assert(kind_sigs(kinds@) =~= Seq::new(kinds.len() as nat, |i: int| kinds[i]@));
        Ok(EffectList { kinds })
    }

    /// How many kinds the list holds.
    pub fn len(&self) -> (r: usize)
        ensures
            r == self@.len(),
    {
        self.kinds.len()
    }

    /// The kind at position `slot`, if the list is that long.
    pub fn kind(&self, slot: usize) -> (r: Option<&EffectKind>)
        ensures
            match r {
                Some(kind) => slot < self@.len() && kind@ == self@[slot as int] && kind@.wf(),
                None => slot >= self@.len(),
            },
    {
        if slot < self.kinds.len() {
            let kind = &self.kinds[slot];
            proof {
                use_type_invariant(kind);
            }
            Some(kind)
        } else {
            None
        }
    }

    /// The position of the kind named `kind`, if the list holds one.
    pub fn position(&self, kind: &String) -> (r: Option<usize>)
        ensures
            match r {
                Some(i) => position(kind_names(self@), kind@) == Some(i as int),
                None => position(kind_names(self@), kind@) is None,
            },
    {
        proof {
            use_type_invariant(self);
            assert(names_in(self.kinds@) =~= kind_names(self@));
        }
        find_named(&self.kinds, kind)
    }

    /// Whether `c` is a carrier over this list: its tag names a kind of the
    /// list, and that kind admits the invocation.
    pub fn carries(&self, c: &EffectCarrier) -> (r: bool)
        ensures
            r == carries(self@, *c),
    {
        c.slot < self.kinds.len() && self.kinds[c.slot].admits(&c.item)
    }

    /// Whether `c` is an injection carrier over this list: its tag names a kind
    /// of the list, and the injection answers that kind.
    pub fn carries_answer(&self, c: &InjectionCarrier) -> (r: bool)
        ensures
            r == carries_answer(self@, *c),
    {
        c.slot < self.kinds.len() && self.kinds[c.slot].answers(&c.item)
    }

    /// Wraps `inv` into the carrier over this list, tagged with the position of
    /// its kind. Hands `inv` back where no kind of the list admits it.
    pub fn inject(&self, inv: Invocation) -> (r: Result<EffectCarrier, Invocation>)
        ensures
            r == match injected(self@, inv) {
                Some(c) => Ok::<EffectCarrier, Invocation>(c),
                None => Err::<EffectCarrier, Invocation>(inv),
            },
            r matches Ok(c) ==> carries(self@, c),
    {
        match self.position(&inv.kind) {
            Some(slot) => {
                if self.kinds[slot].admits(&inv) {
                    Ok(Tagged { slot, item: inv })
                } else {
                    Err(inv)
                }
            },
            None => Err(inv),
        }
    }

    /// Takes the invocation out of `c` if its tag names the kind called `kind`
    /// and that kind admits the invocation. Hands `c` back if the tag names
    /// another kind or none of the list, or if `c` holds what the kind at its
    /// tag does not admit.
    pub fn extract(&self, kind: &str, c: EffectCarrier) -> (r: Result<Invocation, EffectCarrier>)
        ensures
            r == match extracted(self@, kind@, c) {
                Some(inv) => Ok::<Invocation, EffectCarrier>(inv),
                None => Err::<Invocation, EffectCarrier>(c),
            },
    {
        let wanted = kind.to_owned();
        if c.slot < self.kinds.len() && *self.kinds[c.slot].name() == wanted && self.kinds[c.slot].admits(
            &c.item,
        ) {
            Ok(c.item)
        } else {
            Err(c)
        }
    }
}

impl Clone for EffectList {
    fn clone(&self) -> (r: Self)
        ensures
            r@ == self@,
    {
        proof {
            use_type_invariant(self);
        }
        let kinds = self.kinds.clone();
        assert(Seq::new(kinds.len() as nat, |i: int| kinds[i]@) =~= self@);
        EffectList { kinds }
    }
}

/// Tag fidelity. An invocation that was wrapped into a carrier over a list
/// comes out again, unchanged, when it is taken out by the name of its own
/// kind, and nothing comes out when it is taken out by another kind's name.
pub proof fn lemma_tag_fidelity(kinds: Seq<KindSig>, inv: Invocation, other: Seq<char>)
    requires
        list_wf(kinds),
        injected(kinds, inv) is Some,
    ensures
        extracted(kinds, inv.kind@, injected(kinds, inv)->0) == Some(inv),
        other != inv.kind@ ==> extracted(kinds, other, injected(kinds, inv)->0) is None,
        carries(kinds, injected(kinds, inv)->0),
{
    let i = position(kind_names(kinds), inv.kind@)->0;
    assert(kind_names(kinds)[i] == inv.kind@);
}

} // verus!
