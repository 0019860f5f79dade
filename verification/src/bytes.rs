//! Small helpers on byte sequences and on searching sequences.

use vstd::prelude::*;

verus! {

/// `index` is the first position of `s` that holds `x`.
pub open spec fn is_first<A>(s: Seq<A>, x: A, index: int) -> bool {
    &&& 0 <= index < s.len()
    &&& s[index] == x
    &&& forall|j: int| 0 <= j < index ==> s[j] != x
}

/// The first position of `s` that holds `x`, if any does.
pub open spec fn first_index<A>(s: Seq<A>, x: A) -> Option<int> {
    if exists|i: int| is_first(s, x, i) {
        Some(choose|i: int| is_first(s, x, i))
    } else {
        None
    }
}

/// There is at most one first position, and `first_index` names it.
pub proof fn lemma_first_index_found<A>(s: Seq<A>, x: A, index: int)
    requires
        is_first(s, x, index),
    ensures
        first_index(s, x) == Some(index),
{
    let chosen = choose|i: int| is_first(s, x, i);
    assert(is_first(s, x, chosen));
    if chosen < index {
        assert(s[chosen] != x);
    }
    if index < chosen {
        assert(s[index] != x);
    }
}

/// Where no position holds `x`, `first_index` finds none.
pub proof fn lemma_first_index_absent<A>(s: Seq<A>, x: A)
    requires
        forall|j: int| 0 <= j < s.len() ==> s[j] != x,
    ensures
        first_index(s, x) is None,
{
}

/// What `first_index` finds is a first position; where it finds none, no
/// position holds `x`.
pub proof fn lemma_first_index_sound<A>(s: Seq<A>, x: A)
    ensures
        first_index(s, x) matches Some(i) ==> is_first(s, x, i),
        first_index(s, x) is None ==> forall|j: int| 0 <= j < s.len() ==> s[j] != x,
{
    if first_index(s, x) is None {
        assert forall|j: int| 0 <= j < s.len() implies s[j] != x by {
            if s[j] == x {
                lemma_has_first(s, x, j);
            }
        }
    }
}

/// A sequence that holds `x` at some position holds it at a first one.
proof fn lemma_has_first<A>(s: Seq<A>, x: A, at: int)
    requires
        0 <= at < s.len(),
        s[at] == x,
    ensures
        exists|i: int| is_first(s, x, i),
    decreases at,
{
    if forall|j: int| 0 <= j < at ==> s[j] != x {
        assert(is_first(s, x, at));
    } else {
        let j = choose|j: int| 0 <= j < at && s[j] == x;
        lemma_has_first(s, x, j);
    }
}

/// Whether two byte slices hold the same bytes.
pub fn bytes_eq(a: &[u8], b: &[u8]) -> (same: bool)
    ensures
        same == (a@ == b@),
{
    if a.len() != b.len() {
        return false;
    }
    let mut i: usize = 0;
    while i < a.len()
        invariant
            i <= a.len(),
            a.len() == b.len(),
            forall|j: int| 0 <= j < i ==> a@[j] == b@[j],
        decreases a.len() - i,
    {
        if a[i] != b[i] {
            return false;
        }
        i += 1;
    }
    assert(a@ =~= b@);
    true
}

/// The position of the first name in `names` that equals `name`.
pub fn find_name(names: &Vec<Vec<u8>>, name: &[u8]) -> (found: Option<usize>)
    ensures
        found matches Some(i) ==> first_index(names@.map_values(|n: Vec<u8>| n@), name@) == Some(
            i as int,
        ),
        found is None ==> first_index(names@.map_values(|n: Vec<u8>| n@), name@) is None,
{
    let ghost views = names@.map_values(|n: Vec<u8>| n@);
    let mut i: usize = 0;
    while i < names.len()
        invariant
            i <= names.len(),
            views == names@.map_values(|n: Vec<u8>| n@),
            forall|j: int| 0 <= j < i ==> views[j] != name@,
        decreases names.len() - i,
    {
        if bytes_eq(names[i].as_slice(), name) {
            proof {
                lemma_first_index_found(views, name@, i as int);
            }
            return Some(i);
        }
        i += 1;
    }
    proof {
        lemma_first_index_absent(views, name@);
    }
    None
}

} // verus!
