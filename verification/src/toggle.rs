use std::collections::HashSet;
use std::hash::Hash;

use vstd::prelude::*;
use vstd::std_specs::hash::obeys_key_model;

verus! {

broadcast use vstd::std_specs::hash::group_hash_axioms;

/// The set after toggling `x`: removed when present, added when absent.
pub open spec fn toggled<T>(s: Set<T>, x: T) -> Set<T> {
    if s.contains(x) {
        s.remove(x)
    } else {
        s.insert(x)
    }
}

/// Toggles `seg` in or out of a multi-select group's value set: it is looked up by reference and moved
/// in when absent. The contract holds for key types that follow the hashing model (all of std's
/// primitive types do).
pub fn toggle<T: Eq + Hash>(set: &mut HashSet<T>, seg: T)
    ensures
        obeys_key_model::<T>() ==> final(set)@ == toggled(old(set)@, seg),
{
    if !set.remove(&seg) {
        set.insert(seg);
    }
}

/// Toggling the same value twice restores the set.
pub proof fn lemma_toggle_twice<T>(s: Set<T>, x: T)
    ensures
        toggled(toggled(s, x), x) == s,
{
    assert(toggled(toggled(s, x), x) =~= s);
}

} // verus!
