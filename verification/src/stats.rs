//! Median and mode of a list of integers.  (The mean needs floating
//! point and lives with the caller.)

use std::collections::HashMap;
use vstd::multiset::Multiset;
use vstd::prelude::*;

verus! {

broadcast use vstd::std_specs::hash::group_hash_axioms;

/// Non-decreasing order.
pub open spec fn sorted(s: Seq<i32>) -> bool {
    forall|p: int, q: int| 0 <= p < q < s.len() ==> s[p] <= s[q]
}

/// How often `x` occurs in `s`.
pub open spec fn count_in(s: Seq<i32>, x: i32) -> nat
    decreases s.len(),
{
    if s.len() == 0 {
        0
    } else {
        count_in(s.drop_last(), x) + if s.last() == x {
            1nat
        } else {
            0
        }
    }
}

/// Concatenation adds the multisets of the two parts.
proof fn lemma_to_multiset_add(a: Seq<i32>, b: Seq<i32>)
    ensures
        (a + b).to_multiset() == a.to_multiset().add(b.to_multiset()),
    decreases b.len(),
{
    if b.len() == 0 {
        assert(a + b =~= a);
        b.to_multiset_ensures();
        assert(b.to_multiset() =~= Multiset::<i32>::empty());
        assert((a + b).to_multiset() =~= a.to_multiset().add(b.to_multiset()));
    } else {
        lemma_to_multiset_add(a, b.drop_last());
        let x = b.last();
        assert(a + b =~= (a + b.drop_last()).push(x));
        (a + b.drop_last()).to_multiset_ensures();
        b.drop_last().to_multiset_ensures();
        assert(b =~= b.drop_last().push(x));
        assert((a + b).to_multiset() =~= a.to_multiset().add(b.to_multiset()));
    }
}

/// Inserting into a sequence inserts into its multiset, wherever the
/// insertion position lies.
proof fn lemma_seq_insert_to_multiset(s: Seq<i32>, i: int, x: i32)
    requires
        0 <= i <= s.len(),
    ensures
        s.insert(i, x).to_multiset() == s.to_multiset().insert(x),
{
    let left = s.subrange(0, i);
    let right = s.subrange(i, s.len() as int);
    left.to_multiset_ensures();
    lemma_to_multiset_add(left.push(x), right);
    lemma_to_multiset_add(left, right);
    assert(s =~= left + right);
    assert(s.insert(i, x).to_multiset() =~= s.to_multiset().insert(x));
}

/// Inserts `x` into an already-sorted vector, keeping it sorted.
fn insert_sorted(out: &mut Vec<i32>, x: i32)
    requires
        sorted(old(out)@),
    ensures
        sorted(final(out)@),
        final(out)@.to_multiset() == old(out)@.to_multiset().insert(x),
        final(out)@.len() == old(out)@.len() + 1,
{
    let mut i: usize = 0;
    while i < out.len() && out[i] <= x
        invariant
            0 <= i <= out@.len(),
            out@ == old(out)@,
            forall|k: int| 0 <= k < i ==> out@[k] <= x,
        decreases out@.len() - i,
    {
        i = i + 1;
    }
    proof {
        lemma_seq_insert_to_multiset(out@, i as int, x);
    }
    out.insert(i, x);
    proof {
        assert(sorted(out@)) by {
            assert(forall|k: int|
                0 <= k < out@.len() && k < i ==> out@[k] == old(out)@[k]);
            assert(forall|k: int|
                i < k < out@.len() ==> out@[k] == old(out)@[k - 1]);
            assert(out@[i as int] == x);
        }
    }
}

/// The middle element of the sorted permutation of `v` (the upper middle
/// for even lengths).
pub fn calculate_median(v: &Vec<i32>) -> (r: i32)
    requires
        v@.len() > 0,
    ensures
        exists|s: Seq<i32>|
            sorted(s) && s.to_multiset() == v@.to_multiset() && r == s[v@.len() as int / 2],
{
    let mut work: Vec<i32> = Vec::new();
    proof {
        Seq::<i32>::empty().to_multiset_ensures();
        assert(work@.to_multiset() =~= v@.subrange(0, 0).to_multiset()) by {
            assert(v@.subrange(0, 0) =~= Seq::<i32>::empty());
        }
    }
    let mut i: usize = 0;
    while i < v.len()
        invariant
            0 <= i <= v@.len(),
            sorted(work@),
            work@.len() == i,
            work@.to_multiset() == v@.subrange(0, i as int).to_multiset(),
        decreases v@.len() - i,
    {
        proof {
            let prefix = v@.subrange(0, i as int);
            let next = v@.subrange(0, i + 1);
            prefix.to_multiset_ensures();
            assert(next =~= prefix.push(v@[i as int]));
        }
        insert_sorted(&mut work, v[i]);
        i = i + 1;
    }
    proof {
        assert(v@.subrange(0, v@.len() as int) =~= v@);
    }
    let midpoint: usize = work.len() / 2;
    work[midpoint]
}

/// A value of `v` that occurs at least as often as every other value: the
/// mode of the list.
pub fn calculate_mode(v: &Vec<i32>) -> (r: i32)
    requires
        v@.len() > 0,
    ensures
        v@.contains(r),
        forall|x: i32| count_in(v@, x) <= count_in(v@, r),
{
    let mut map: HashMap<i32, usize> = HashMap::new();
    let mut high_count: usize = 0;
    let mut mode = v[0];
    proof {
        assert(v@.contains(v@[0]));
    }

    let mut i: usize = 0;
    while i < v.len()
        invariant
            0 <= i <= v@.len(),
            v@.len() > 0,
            vstd::std_specs::hash::obeys_key_model::<i32>(),
            forall|x: i32| #[trigger] map@.contains_key(x) == v@.subrange(0, i as int).contains(x),
            forall|x: i32|
                map@.contains_key(x) ==> #[trigger] map@[x] == count_in(
                    v@.subrange(0, i as int),
                    x,
                ),
            forall|x: i32| count_in(v@.subrange(0, i as int), x) <= high_count,
            i > 0 ==> count_in(v@.subrange(0, i as int), mode) == high_count,
            i == 0 ==> high_count == 0,
            high_count <= i,
            v@.contains(mode),
        decreases v@.len() - i,
    {
        let num = v[i];
        let prev = match map.get(&num) {
            Some(c) => *c,
            None => 0,
        };
        proof {
            let prefix = v@.subrange(0, i as int);
            let next = v@.subrange(0, i + 1);
            assert(next.drop_last() =~= prefix);
            assert(next.last() == v@[i as int]);
            assert(forall|x: i32|
                x != num ==> count_in(next, x) == count_in(prefix, x));
            assert(count_in(next, num) == count_in(prefix, num) + 1);
            if !map@.contains_key(num) {
                assert(count_in(prefix, num) == 0) by {
                    lemma_count_in_zero(prefix, num);
                }
            }
            assert(forall|x: i32| #[trigger] next.contains(x) == (prefix.contains(x) || x == num));
        }
        let count = prev + 1;
        map.insert(num, count);
        if count > high_count {
            high_count = count;
            mode = num;
            proof {
                assert(v@.contains(v@[i as int]));
            }
        }
        i = i + 1;
    }
    proof {
        assert(v@.subrange(0, v@.len() as int) =~= v@);
    }
    mode
}

/// A value outside a sequence has count zero in it.
proof fn lemma_count_in_zero(s: Seq<i32>, x: i32)
    requires
        !s.contains(x),
    ensures
        count_in(s, x) == 0,
    decreases s.len(),
{
    if s.len() > 0 {
        lemma_count_in_zero(s.drop_last(), x);
        assert(s.drop_last().len() < s.len());
        assert(!s.drop_last().contains(x)) by {
            assert(forall|k: int|
                0 <= k < s.drop_last().len() ==> s.drop_last()[k] == s[k]);
        }
    }
}

} // verus!
