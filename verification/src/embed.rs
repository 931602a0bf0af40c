//! Widening a carrier over one effect-kind list into a carrier over a longer
//! list that holds the same kinds, and narrowing it back.

use vstd::prelude::*;
use crate::carrier::{carries, carries_answer, kind_names, list_wf, EffectCarrier, EffectList, InjectionCarrier, Tagged};
use crate::decl::KindSig;
use crate::names::position;

verus! {

/// No two positions of `map` hold the same slot.
pub open spec fn injective(map: Seq<usize>) -> bool {
    forall|i: int, j: int| 0 <= i < j < map.len() ==> map[i] != map[j]
}

/// `map` sends each position of `inner` to a position of `outer` that holds
/// the same kind.
pub open spec fn embeds(map: Seq<usize>, inner: Seq<KindSig>, outer: Seq<KindSig>) -> bool {
    &&& map.len() == inner.len()
    &&& forall|i: int|
        0 <= i < map.len() ==> (#[trigger] map[i]) < outer.len() && outer[map[i] as int] == inner[i]
}

/// The kind at position `i` of `inner` stands in `outer` too, declared alike.
pub open spec fn embeddable_at(inner: Seq<KindSig>, outer: Seq<KindSig>, i: int) -> bool {
    match position(kind_names(outer), inner[i].name) {
        Some(p) => outer[p] == inner[i],
        None => false,
    }
}

/// `map` sends position `i` to the slot `slot`.
pub open spec fn sent_from(map: Seq<usize>, slot: usize, i: int) -> bool {
    0 <= i < map.len() && map[i] == slot
}

/// The carrier `c` retagged for the outer list.
pub open spec fn widened<T>(map: Seq<usize>, c: Tagged<T>) -> Tagged<T> {
    Tagged { slot: map[c.slot as int], item: c.item }
}

/// The carrier `c` retagged for the inner list, where its kind is one of the
/// inner list's.
pub open spec fn narrowed<T>(map: Seq<usize>, c: Tagged<T>) -> Option<Tagged<T>> {
    if exists|i: int| sent_from(map, c.slot, i) {
        Some(Tagged { slot: (choose|i: int| sent_from(map, c.slot, i)) as usize, item: c.item })
    } else {
        None
    }
}

/// Why one effect-kind list could not be embedded into another.
#[derive(Debug, PartialEq, Eq)]
pub enum EmbedError {
    /// The outer list has no kind with the name of the inner kind at this position.
    Missing(usize),
    /// The outer list has a kind with the name of the inner kind at this
    /// position, but it declares something else.
    Conflict(usize),
}

/// `e` names the first kind of `inner` that cannot be found in `outer`, and
/// says why.
pub open spec fn embed_refused(inner: Seq<KindSig>, outer: Seq<KindSig>, e: EmbedError) -> bool {
    match e {
        EmbedError::Missing(i) => {
            &&& i < inner.len()
            &&& position(kind_names(outer), inner[i as int].name) is None
            &&& forall|k: int| 0 <= k < i ==> embeddable_at(inner, outer, k)
        },
        EmbedError::Conflict(i) => {
            &&& i < inner.len()
            &&& position(kind_names(outer), inner[i as int].name) is Some
            &&& !embeddable_at(inner, outer, i as int)
            &&& forall|k: int| 0 <= k < i ==> embeddable_at(inner, outer, k)
        },
    }
}

/// How the kinds of an inner effect-kind list lie in an outer one: for each
/// inner position, the outer position of the same kind.
pub struct Embedding {
    map: Vec<usize>,
}

impl View for Embedding {
    type V = Seq<usize>;

    closed spec fn view(&self) -> Seq<usize> {
        self.map@
    }
}

impl Embedding {
    /// No two inner positions are sent to the same outer position.
    #[verifier::type_invariant]
    pub open spec fn wf(self) -> bool {
        injective(self@)
    }

    /// Works out how `inner` lies in `outer`.
    ///
    /// Fails at the first kind of `inner` that `outer` lacks, or that `outer`
    /// declares differently under the same name.
    pub fn new(inner: &EffectList, outer: &EffectList) -> (r: Result<Embedding, EmbedError>)
        ensures
            match r {
                Ok(e) => embeds(e@, inner@, outer@) && e.wf(),
                Err(e) => embed_refused(inner@, outer@, e),
            },
    {
        proof {
            use_type_invariant(inner);
            use_type_invariant(outer);
        }
        let mut map: Vec<usize> = Vec::new();
        let mut i: usize = 0;
        while i < inner.len()
            invariant
                i <= inner@.len(),
                list_wf(inner@),
                list_wf(outer@),
                embeds(map@, inner@.take(i as int), outer@),
                forall|k: int| 0 <= k < i ==> embeddable_at(inner@, outer@, k),
            decreases inner@.len() - i,
        {
            let kind = inner.kind(i).unwrap();
            match outer.position(kind.name()) {
                None => {
                    return Err(EmbedError::Missing(i));
                },
                Some(p) => {
                    if !outer.kind(p).unwrap().same(kind) {
                        return Err(EmbedError::Conflict(i));
                    }
                    map.push(p);
                },
            }
            i += 1;
        }
        proof {
            assert(inner@.take(i as int) =~= inner@);
            lemma_embedding_injective(map@, inner@, outer@);
        }
        Ok(Embedding { map })
    }

    /// How many kinds the inner list has.
    pub fn len(&self) -> (r: usize)
        ensures
            r == self@.len(),
    {
        self.map.len()
    }

    /// Retags a carrier over the inner list as a carrier over the outer list.
    /// This succeeds for every carrier whose tag is a position of the inner
    /// list; any other is handed back.
    pub fn widen<T>(&self, c: Tagged<T>) -> (r: Result<Tagged<T>, Tagged<T>>)
        ensures
            r == if c.slot < self@.len() {
                Ok::<Tagged<T>, Tagged<T>>(widened(self@, c))
            } else {
                Err::<Tagged<T>, Tagged<T>>(c)
            },
    {
        if c.slot < self.map.len() {
            Ok(Tagged { slot: self.map[c.slot], item: c.item })
        } else {
            Err(c)
        }
    }

    /// Retags a carrier over the outer list as a carrier over the inner list.
    /// Hands `c` back where its kind is none of the inner list's.
    pub fn narrow<T>(&self, c: Tagged<T>) -> (r: Result<Tagged<T>, Tagged<T>>)
        ensures
            r == match narrowed(self@, c) {
                Some(n) => Ok::<Tagged<T>, Tagged<T>>(n),
                None => Err::<Tagged<T>, Tagged<T>>(c),
            },
    {
        proof {
            use_type_invariant(self);
        }
        let mut i: usize = 0;
        while i < self.map.len()
            invariant
                i <= self.map.len(),
                injective(self@),
                forall|k: int| 0 <= k < i ==> !sent_from(self@, c.slot, k),
            decreases self.map.len() - i,
        {
            if self.map[i] == c.slot {
                proof {
                    assert(sent_from(self@, c.slot, i as int));
                    lemma_sent_from_unique(self@, c.slot, i as int);
                }
                return Ok(Tagged { slot: i, item: c.item });
            }
            i += 1;
        }
        Err(c)
    }
}

/// In an injective map, the position that is sent to a slot is the only one.
pub proof fn lemma_sent_from_unique(map: Seq<usize>, slot: usize, i: int)
    requires
        injective(map),
        sent_from(map, slot, i),
    ensures
        (choose|k: int| sent_from(map, slot, k)) == i,
{
    let k = choose|k: int| sent_from(map, slot, k);
    if k < i {
        assert(map[k] != map[i]);
    } else if i < k {
        assert(map[i] != map[k]);
    }
}

/// A map that embeds a list of distinctly named kinds sends no two positions
/// to the same slot.
pub proof fn lemma_embedding_injective(map: Seq<usize>, inner: Seq<KindSig>, outer: Seq<KindSig>)
    requires
        list_wf(inner),
        embeds(map, inner, outer),
    ensures
        injective(map),
{
    assert forall|i: int, j: int| 0 <= i < j < map.len() implies map[i] != map[j] by {
        if map[i] == map[j] {
            assert(outer[map[i] as int] == inner[i]);
            assert(outer[map[j] as int] == inner[j]);
            assert(kind_names(inner)[i] == kind_names(inner)[j]);
        }
    }
}

/// Widening and narrowing are inverse. Where the kinds of `inner` all stand
/// in `outer`, a carrier over `inner` that is widened to `outer` and narrowed
/// back is the carrier it was.
pub proof fn lemma_widen_then_narrow<T>(
    map: Seq<usize>,
    inner: Seq<KindSig>,
    outer: Seq<KindSig>,
    c: Tagged<T>,
)
    requires
        list_wf(inner),
        embeds(map, inner, outer),
        c.slot < inner.len(),
    ensures
        narrowed(map, widened(map, c)) == Some(c),
{
    lemma_embedding_injective(map, inner, outer);
    let w = widened(map, c);
    assert(sent_from(map, w.slot, c.slot as int));
    lemma_sent_from_unique(map, w.slot, c.slot as int);
}

/// A carrier over the outer list that narrows to the inner list widens back
/// to the carrier it was.
pub proof fn lemma_narrow_then_widen<T>(map: Seq<usize>, c: Tagged<T>)
    requires
        map.len() <= usize::MAX,
        narrowed(map, c) is Some,
    ensures
        widened(map, narrowed(map, c)->0) == c,
        narrowed(map, c)->0.slot < map.len(),
{
    let i = choose|i: int| sent_from(map, c.slot, i);
    assert(sent_from(map, c.slot, i));
}

/// Widening keeps the kind: the widened carrier is a carrier over the outer
/// list, for the same invocation.
pub proof fn lemma_widened_carries(
    map: Seq<usize>,
    inner: Seq<KindSig>,
    outer: Seq<KindSig>,
    c: EffectCarrier,
)
    requires
        embeds(map, inner, outer),
        carries(inner, c),
    ensures
        carries(outer, widened(map, c)),
        widened(map, c).item == c.item,
{
    assert(outer[map[c.slot as int] as int] == inner[c.slot as int]);
}

/// Narrowing keeps the kind: an injection carrier over the outer list that
/// narrows to the inner list is a carrier over the inner list, for the same
/// injection.
pub proof fn lemma_narrowed_carries_answer(
    map: Seq<usize>,
    inner: Seq<KindSig>,
    outer: Seq<KindSig>,
    c: InjectionCarrier,
)
    requires
        map.len() <= usize::MAX,
        embeds(map, inner, outer),
        carries_answer(outer, c),
        narrowed(map, c) is Some,
    ensures
        carries_answer(inner, narrowed(map, c)->0),
        narrowed(map, c)->0.item == c.item,
{
    let i = choose|i: int| sent_from(map, c.slot, i);
    assert(sent_from(map, c.slot, i));
    assert(outer[map[i] as int] == inner[i]);
}

} // verus!
