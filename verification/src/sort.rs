use vstd::prelude::*;

verus! {

/// Strict order on row indices by key: ascending keys (descending when `desc`), ties broken by the
/// smaller index — the order a stable sort produces.
pub open spec fn precedes(keys: Seq<i64>, desc: bool, a: int, b: int) -> bool {
    if keys[a] == keys[b] {
        a < b
    } else if desc {
        keys[a] > keys[b]
    } else {
        keys[a] < keys[b]
    }
}

/// `order` lists every index of `0..n` exactly once.
pub open spec fn is_index_permutation(order: Seq<usize>, n: int) -> bool {
    &&& order.len() == n
    &&& forall|i: int| 0 <= i < n ==> order[i] < n
    &&& forall|i: int, j: int| 0 <= i < j < n ==> order[i] != order[j]
}

/// `order` is the stable sort of `0..keys.len()` by `keys`: a permutation of the indices in which every
/// index precedes all later ones.
pub open spec fn is_stable_order(keys: Seq<i64>, desc: bool, order: Seq<usize>) -> bool {
    &&& is_index_permutation(order, keys.len() as int)
    &&& forall|a: int, b: int|
        0 <= a < b < order.len() ==> #[trigger] precedes(keys, desc, order[a] as int, order[b] as int)
}

proof fn lemma_precedes_total(keys: Seq<i64>, desc: bool, a: int, b: int)
    ensures
        a != b ==> precedes(keys, desc, a, b) || precedes(keys, desc, b, a),
        !(precedes(keys, desc, a, b) && precedes(keys, desc, b, a)),
{
}

proof fn lemma_precedes_transitive(keys: Seq<i64>, desc: bool, a: int, b: int, c: int)
    requires
        precedes(keys, desc, a, b),
        precedes(keys, desc, b, c),
    ensures
        precedes(keys, desc, a, c),
{
}

/// Every index below `n` occurs in an index permutation of `0..n`.
pub(crate) proof fn lemma_permutation_covers(order: Seq<usize>, n: int, x: int)
    requires
        is_index_permutation(order, n),
        0 <= x < n,
    ensures
        exists|k: int| 0 <= k < n && order[k] == x,
{
    let s = order.map_values(|v: usize| v as int);
    assert(s.no_duplicates()) by {
        assert forall|i: int, j: int| 0 <= i < s.len() && 0 <= j < s.len() && i != j implies s[i] != s[j] by {
            if i < j {
            } else {
                assert(order[j] != order[i]);
            }
        }
    }
    s.unique_seq_to_set();
    vstd::set_lib::lemma_int_range(0, n);
    assert(s.to_set().subset_of(vstd::set_lib::set_int_range(0, n))) by {
        assert forall|v: int| s.to_set().contains(v) implies vstd::set_lib::set_int_range(0, n).contains(v) by {
            let k = choose|k: int| 0 <= k < s.len() && s[k] == v;
            assert(order[k] < n);
        }
    }
    vstd::set_lib::lemma_subset_equality(s.to_set(), vstd::set_lib::set_int_range(0, n));
    assert(vstd::set_lib::set_int_range(0, n).contains(x));
    assert(s.to_set().contains(x));
    let k = choose|k: int| 0 <= k < s.len() && s[k] == x;
    assert(order[k] == x);
}

/// The stable order is unique: two orders that both sort `0..keys.len()` stably by `keys` are the same
/// sequence, so [`stable_order`]'s contract determines its result completely.
pub proof fn lemma_stable_order_unique(keys: Seq<i64>, desc: bool, o1: Seq<usize>, o2: Seq<usize>)
    requires
        is_stable_order(keys, desc, o1),
        is_stable_order(keys, desc, o2),
    ensures
        o1 == o2,
{
    let n = keys.len() as int;
    if o1 != o2 {
        assert(exists|k: int| 0 <= k < n && o1[k] != o2[k]) by {
            if forall|k: int| 0 <= k < n ==> o1[k] == o2[k] {
                assert(o1 =~= o2);
            }
        }
        let k0 = choose|k: int| 0 <= k < n && o1[k] != o2[k];
        // the first position where they differ
        let k = first_difference(o1, o2, n, k0);
        let x = o1[k] as int;
        let y = o2[k] as int;
        lemma_precedes_total(keys, desc, x, y);
        if precedes(keys, desc, x, y) {
            lemma_permutation_covers(o2, n, x);
            let m = choose|m: int| 0 <= m < n && o2[m] == x;
            if m < k {
                assert(o1[m] == o2[m]);
            } else {
                assert(precedes(keys, desc, o2[k] as int, o2[m] as int));
            }
        } else {
            lemma_permutation_covers(o1, n, y);
            let m = choose|m: int| 0 <= m < n && o1[m] == y;
            if m < k {
                assert(o1[m] == o2[m]);
            } else {
                assert(precedes(keys, desc, o1[k] as int, o1[m] as int));
            }
        }
    }
}

/// The smallest position at which `o1` and `o2` differ, found below `k`.
proof fn first_difference(o1: Seq<usize>, o2: Seq<usize>, n: int, k: int) -> (f: int)
    requires
        0 <= k < n,
        o1[k] != o2[k],
    ensures
        0 <= f <= k,
        o1[f] != o2[f],
        forall|j: int| 0 <= j < f ==> o1[j] == o2[j],
    decreases k,
{
    if exists|j: int| 0 <= j < k && o1[j] != o2[j] {
        let j = choose|j: int| 0 <= j < k && o1[j] != o2[j];
        first_difference(o1, o2, n, j)
    } else {
        k
    }
}

/// Executable form of [`precedes`].
fn precedes_exec(keys: &Vec<i64>, desc: bool, a: usize, b: usize) -> (r: bool)
    requires
        a < keys.len(),
        b < keys.len(),
    ensures
        r == precedes(keys@, desc, a as int, b as int),
{
    let ka = keys[a];
    let kb = keys[b];
    if ka == kb {
        a < b
    } else if desc {
        ka > kb
    } else {
        ka < kb
    }
}

/// The stable order of the indices `0..keys.len()` by `keys` (ascending, or descending when `desc`):
/// equal keys keep their input order.
pub fn stable_order(keys: &Vec<i64>, desc: bool) -> (order: Vec<usize>)
    ensures
        is_stable_order(keys@, desc, order@),
{
    let n = keys.len();
    let mut order: Vec<usize> = Vec::new();
    for i in 0..n
        invariant
            n == keys.len(),
            order@.len() == i,
            forall|a: int| 0 <= a < i ==> order@[a] < i,
            forall|a: int, b: int| 0 <= a < b < i ==> order@[a] != order@[b],
            forall|a: int, b: int|
                0 <= a < b < i ==> #[trigger] precedes(keys@, desc, order@[a] as int, order@[b] as int),
    {
        let mut p = order.len();
        while p > 0 && !precedes_exec(keys, desc, order[p - 1], i)
            invariant
                n == keys.len(),
                i < n,
                order@.len() == i,
                p <= i,
                forall|a: int| 0 <= a < i ==> order@[a] < i,
                forall|a: int, b: int| 0 <= a < b < i ==> order@[a] != order@[b],
                forall|a: int, b: int|
                    0 <= a < b < i ==> #[trigger] precedes(keys@, desc, order@[a] as int, order@[b] as int),
                forall|q: int| p <= q < i ==> precedes(keys@, desc, i as int, #[trigger] order@[q] as int),
            decreases p,
        {
            proof {
                lemma_precedes_total(keys@, desc, i as int, order@[p - 1] as int);
            }
            p -= 1;
        }
        proof {
            assert forall|q: int| 0 <= q < p implies precedes(keys@, desc, #[trigger] order@[q] as int, i as int) by {
                if q < p - 1 {
                    assert(precedes(keys@, desc, order@[q] as int, order@[p - 1] as int));
                    lemma_precedes_transitive(keys@, desc, order@[q] as int, order@[p - 1] as int, i as int);
                }
            }
        }
        let ghost old_order = order@;
        order.insert(p, i);
        proof {
            assert(order@ == old_order.subrange(0, p as int).push(i).add(old_order.subrange(p as int, i as int)));
            assert forall|a: int, b: int| 0 <= a < b < i + 1 implies #[trigger] precedes(
                keys@,
                desc,
                order@[a] as int,
                order@[b] as int,
            ) by {
                if b < p {
                    assert(order@[a] == old_order[a] && order@[b] == old_order[b]);
                } else if b == p {
                    assert(order@[a] == old_order[a]);
                } else if a < p {
                    assert(order@[a] == old_order[a] && order@[b] == old_order[b - 1]);
                } else if a == p {
                    assert(order@[b] == old_order[b - 1]);
                } else {
                    assert(order@[a] == old_order[a - 1] && order@[b] == old_order[b - 1]);
                }
            }
            assert forall|a: int, b: int| 0 <= a < b < i + 1 implies order@[a] != order@[b] by {
                assert(precedes(keys@, desc, order@[a] as int, order@[b] as int));
            }
        }
    }
    order
}

} // verus!
