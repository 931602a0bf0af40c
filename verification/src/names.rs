//! Lists of names in which no name occurs twice, and where a name stands in one.

use vstd::prelude::*;

verus! {

/// No name occurs twice in `names`.
pub open spec fn distinct(names: Seq<Seq<char>>) -> bool {
    forall|i: int, j: int| 0 <= i < j < names.len() ==> names[i] != names[j]
}

/// `names` holds `name` at position `i`.
pub open spec fn named_at(names: Seq<Seq<char>>, name: Seq<char>, i: int) -> bool {
    0 <= i < names.len() && names[i] == name
}

/// The position of `name` in `names`, if it is there. In a list of distinct
/// names it is the only position that holds the name.
pub open spec fn position(names: Seq<Seq<char>>, name: Seq<char>) -> Option<int> {
    if exists|i: int| named_at(names, name, i) {
        Some(choose|i: int| named_at(names, name, i))
    } else {
        None
    }
}

/// The name at position `j` also stands at an earlier position.
pub open spec fn repeats_at(names: Seq<Seq<char>>, j: int) -> bool {
    0 <= j < names.len() && exists|i: int| 0 <= i < j && names[i] == names[j]
}

/// In a list of distinct names, a name that stands at `i` has position `i`.
pub proof fn lemma_position_unique(names: Seq<Seq<char>>, name: Seq<char>, i: int)
    requires
        distinct(names),
        named_at(names, name, i),
    ensures
        position(names, name) == Some(i),
{
    let j = choose|j: int| named_at(names, name, j);
    if i < j {
        assert(names[i] != names[j]);
    } else if j < i {
        assert(names[j] != names[i]);
    }
}

/// A name that stands nowhere in `names` has no position.
pub proof fn lemma_position_absent(names: Seq<Seq<char>>, name: Seq<char>)
    requires
        forall|i: int| 0 <= i < names.len() ==> names[i] != name,
    ensures
        position(names, name) is None,
{
    assert forall|i: int| !named_at(names, name, i) by {}
}

/// Something that is found in a list by its name.
pub trait Named {
    /// The name.
    spec fn name_of(&self) -> Seq<char>;

    /// The name.
    fn name_ref(&self) -> (r: &String)
        ensures
            r@ == self.name_of(),
    ;
}

/// The names of `items`, in order.
pub open spec fn names_in<T: Named>(items: Seq<T>) -> Seq<Seq<char>> {
    Seq::new(items.len(), |i: int| items[i].name_of())
}

/// The first position of `items` whose name also stands at an earlier
/// position; nothing where the names are distinct.
pub fn first_repeat<T: Named>(items: &Vec<T>) -> (r: Option<usize>)
    ensures
        match r {
            None => distinct(names_in(items@)),
            Some(j) => {
                &&& repeats_at(names_in(items@), j as int)
                &&& forall|k: int| 0 <= k < j ==> !repeats_at(names_in(items@), k)
            },
        },
{
    let ghost names = names_in(items@);
    let n = items.len();
    let mut j: usize = 0;
    while j < n
        invariant
            n == items.len(),
            j <= n,
            names == names_in(items@),
            forall|a: int, b: int| 0 <= a < b < j ==> names[a] != names[b],
        decreases n - j,
    {
        let mut i: usize = 0;
        while i < j
            invariant
                n == items.len(),
                i <= j < n,
                names == names_in(items@),
                forall|a: int, b: int| 0 <= a < b < j ==> names[a] != names[b],
                forall|a: int| 0 <= a < i ==> names[a] != names[j as int],
            decreases j - i,
        {
            if *items[i].name_ref() == *items[j].name_ref() {
                assert(names[i as int] == names[j as int]);
                assert forall|k: int| 0 <= k < j implies !repeats_at(names, k) by {
                    if repeats_at(names, k) {
                        let a = choose|a: int| 0 <= a < k && names[a] == names[k];
                        assert(names[a] != names[k]);
                    }
                }
                return Some(j);
            }
            i += 1;
        }
        j += 1;
    }
    None
}

/// The position of the item of `items` that is named `name`, if there is one.
/// Where several are, it is the first.
pub fn find_named<T: Named>(items: &Vec<T>, name: &String) -> (r: Option<usize>)
    ensures
        match r {
            Some(i) => {
                &&& named_at(names_in(items@), name@, i as int)
                &&& forall|k: int| 0 <= k < i ==> names_in(items@)[k] != name@
            },
            None => position(names_in(items@), name@) is None,
        },
        distinct(names_in(items@)) ==> (r matches Some(i) ==> position(names_in(items@), name@) == Some(
            i as int,
        )),
{
    let mut i: usize = 0;
    while i < items.len()
        invariant
            i <= items.len(),
            forall|k: int| 0 <= k < i ==> names_in(items@)[k] != name@,
        decreases items.len() - i,
    {
        if *items[i].name_ref() == *name {
            proof {
                if distinct(names_in(items@)) {
                    lemma_position_unique(names_in(items@), name@, i as int);
                }
            }
            return Some(i);
        }
        i += 1;
    }
    proof {
        lemma_position_absent(names_in(items@), name@);
    }
    None
}

} // verus!
