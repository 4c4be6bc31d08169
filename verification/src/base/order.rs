//! Stable ordering by integer keys.
use vstd::prelude::*;

verus! {

/// Index `a` stands before index `b` when sorting stably by ascending key.
pub open spec fn stands_before(keys: Seq<i64>, a: int, b: int) -> bool {
    keys[a] < keys[b] || (keys[a] == keys[b] && a < b)
}

/// `perm` lists the indices of `keys` in stable ascending order of their keys.
pub open spec fn is_stable_order(keys: Seq<i64>, perm: Seq<usize>) -> bool {
    &&& perm.len() == keys.len()
    &&& forall|i: int| #![trigger perm[i]] 0 <= i < perm.len() ==> 0 <= perm[i] < keys.len()
    &&& forall|i: int, j: int|
        #![trigger perm[i], perm[j]]
        0 <= i < j < perm.len() ==> stands_before(keys, perm[i] as int, perm[j] as int)
}

/// The stable ascending order of the indices of `keys`.
pub fn stable_order(keys: &Vec<i64>) -> (perm: Vec<usize>)
    ensures
        is_stable_order(keys@, perm@),
{
    let mut perm: Vec<usize> = Vec::new();
    let n: usize = keys.len();
    let mut i: usize = 0;
    while i < n
        invariant
            n == keys.len(),
            i <= n,
            perm.len() == i,
            forall|k: int| #![trigger perm[k]] 0 <= k < i ==> 0 <= perm[k] < i,
            forall|a: int, b: int|
                #![trigger perm[a], perm[b]]
                0 <= a < b < i ==> stands_before(keys@, perm[a] as int, perm[b] as int),
        decreases n - i,
    {
        let mut p: usize = i;
        while p > 0 && keys[perm[p - 1]] > keys[i]
            invariant
                n == keys.len(),
                i < n,
                p <= i,
                perm.len() == i,
                forall|k: int| #![trigger perm[k]] 0 <= k < i ==> 0 <= perm[k] < i,
                forall|k: int| #![trigger perm[k]] p <= k < i ==> keys[perm[k] as int] > keys[i as int],
            decreases p,
        {
            p = p - 1;
        }
        proof {
            if p > 0 {
                assert(keys[perm[p - 1] as int] <= keys[i as int]);
                assert forall|k: int| 0 <= k < p implies stands_before(
                    keys@,
                    #[trigger] perm[k] as int,
                    i as int,
                ) by {
                    if k < p - 1 {
                        assert(stands_before(keys@, perm[k] as int, perm[p - 1] as int));
                    }
                }
            }
        }
        let ghost before = perm@;
        perm.insert(p, i);
        assert(perm@ == before.insert(p as int, i));
        assert forall|a: int, b: int|
            #![trigger perm[a], perm[b]]
            0 <= a < b < i + 1 implies stands_before(keys@, perm[a] as int, perm[b] as int) by {
            let a0 = if a < p { a } else { a - 1 };
            let b0 = if b < p { b } else { b - 1 };
            if a != p && b != p {
                assert(perm[a] == before[a0] && perm[b] == before[b0]);
            } else if a == p {
                assert(perm[b] == before[b0]);
            } else {
                assert(perm[a] == before[a0]);
            }
        }
        i = i + 1;
    }
    perm
}

/// A stable order names every index exactly once.
pub proof fn law_stable_order_is_a_permutation(keys: Seq<i64>, perm: Seq<usize>)
    requires
        is_stable_order(keys, perm),
    ensures
        perm.no_duplicates(),
        forall|i: int| 0 <= i < keys.len() ==> #[trigger] perm.contains(i as usize),
{
    assert forall|i: int, j: int| 0 <= i < perm.len() && 0 <= j < perm.len() && i != j implies perm[i]
        != perm[j] by {
        if i < j {
            assert(stands_before(keys, perm[i] as int, perm[j] as int));
        } else {
            assert(stands_before(keys, perm[j] as int, perm[i] as int));
        }
    }
    let n = keys.len() as int;
    let ints = perm.map_values(|u: usize| u as int);
    assert(ints.no_duplicates());
    let image = ints.to_set();
    ints.unique_seq_to_set();
    let all = vstd::set_lib::set_int_range(0, n);
    vstd::set_lib::lemma_int_range(0, n);
    assert(image.subset_of(all)) by {
        assert forall|x: int| image.contains(x) implies all.contains(x) by {
            let k = choose|k: int| 0 <= k < ints.len() && ints[k] == x;
            assert(ints[k] == perm[k] as int);
        }
    }
    vstd::set_lib::lemma_subset_equality(image, all);
    assert forall|i: int| 0 <= i < n implies #[trigger] perm.contains(i as usize) by {
        assert(all.contains(i));
        assert(image.contains(i));
        let k = choose|k: int| 0 <= k < ints.len() && ints[k] == i;
        assert(perm[k] as int == i);
        assert(perm[k] == i as usize);
    }
}

/// How many items satisfy a condition.
pub open spec fn count_where<T>(s: Seq<T>, f: spec_fn(T) -> bool) -> nat
    decreases s.len(),
{
    if s.len() == 0 {
        0
    } else {
        count_where(s.drop_last(), f) + if f(s.last()) {
            1nat
        } else {
            0nat
        }
    }
}

/// Where no item stands twice, the items that satisfy a condition are as many as the
/// set of them has members.
pub proof fn lemma_count_where_of_set<T>(s: Seq<T>, f: spec_fn(T) -> bool)
    requires
        s.no_duplicates(),
    ensures
        s.to_set().filter(f).finite(),
        s.to_set().filter(f).len() == count_where(s, f),
    decreases s.len(),
{
    if s.len() == 0 {
        assert(s.to_set().filter(f) =~= Set::<T>::empty());
    } else {
        let t = s.drop_last();
        let x = s.last();
        assert(t.no_duplicates());
        lemma_count_where_of_set(t, f);
        let had = t.to_set().filter(f);
        let has = s.to_set().filter(f);
        assert(s =~= t.push(x));
        assert forall|y: T| s.to_set().contains(y) <==> (t.to_set().contains(y) || y == x) by {
            if t.contains(y) {
                let j = t.index_of(y);
                assert(s[j] == y);
            }
            if y == x {
                assert(s[s.len() - 1] == y);
            }
            if s.contains(y) {
                let j = s.index_of(y);
                if j < t.len() {
                    assert(t[j] == y);
                }
            }
        }
        assert(!had.contains(x)) by {
            if t.contains(x) {
                let j = t.index_of(x);
                assert(s[j] == s[s.len() - 1]);
            }
        }
        if f(x) {
            assert(has =~= had.insert(x));
        } else {
            assert(has =~= had);
        }
    }
}

/// Ordered by their keys, no item stands before one with a smaller key, and those of one key
/// stand as they came; every item stands there once.
pub proof fn law_smaller_keys_come_first(keys: Vec<i64>, perm: Vec<usize>, i: int, j: int)
    requires
        call_ensures(stable_order, (&keys,), perm),
        0 <= i < j < perm.len(),
    ensures
        perm.len() == keys.len(),
        keys[perm[i] as int] <= keys[perm[j] as int],
        keys[perm[i] as int] == keys[perm[j] as int] ==> perm[i] < perm[j],
        perm[i] != perm[j],
        perm@.contains(i as usize),
{
    assert(stands_before(keys@, perm@[i] as int, perm@[j] as int));
    law_stable_order_is_a_permutation(keys@, perm@);
}

} // verus!
