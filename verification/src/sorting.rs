use vstd::multiset::Multiset;
use vstd::prelude::*;
use vstd::seq_lib::{
    lemma_multiset_commutative, to_multiset_build, to_multiset_insert, to_multiset_remove,
};
use crate::sample::ints;

verus! {

/// No element is followed by a smaller one.
pub open spec fn ascending(s: Seq<int>) -> bool {
    forall|i: int, j: int| 0 <= i <= j < s.len() ==> s[i] <= s[j]
}

/// `sorted` holds the elements of `s`, each as often as `s` does, in ascending order.
pub open spec fn is_sorting_of(sorted: Seq<int>, s: Seq<int>) -> bool {
    &&& ascending(sorted)
    &&& sorted.to_multiset() == s.to_multiset()
}

/// Two sequences with the same elements still have the same elements after
/// every element has been sent through `f`.
pub proof fn lemma_map_keeps_elements<A, B>(s1: Seq<A>, s2: Seq<A>, f: spec_fn(A) -> B)
    requires
        s1.to_multiset() == s2.to_multiset(),
    ensures
        s1.map_values(f).to_multiset() == s2.map_values(f).to_multiset(),
    decreases s1.len(),
{
    s1.to_multiset_ensures();
    s2.to_multiset_ensures();
    if s1.len() == 0 {
        assert(s1.map_values(f) =~= s2.map_values(f));
    } else {
        let x = s1.last();
        assert(s1[s1.len() - 1] == x);
        assert(s1.contains(x));
        assert(s1.to_multiset().count(x) > 0);
        assert(s2.to_multiset().count(x) > 0);
        assert(s2.contains(x));
        let k = choose|k: int| 0 <= k < s2.len() && s2[k] == x;
        let r1 = s1.remove(s1.len() - 1);
        let r2 = s2.remove(k);
        to_multiset_remove(s1, s1.len() - 1);
        to_multiset_remove(s2, k);
        lemma_map_keeps_elements(r1, r2, f);
        assert(s1.map_values(f) =~= r1.map_values(f).insert(r1.len() as int, f(x)));
        assert(s2.map_values(f) =~= r2.map_values(f).insert(k, f(x)));
        to_multiset_insert(r1.map_values(f), r1.len() as int, f(x));
        to_multiset_insert(r2.map_values(f), k, f(x));
    }
}

/// Merges two ascending runs into one.
fn merge(left: &Vec<i32>, right: &Vec<i32>) -> (out: Vec<i32>)
    requires
        ascending(ints(left@)),
        ascending(ints(right@)),
        left.len() + right.len() <= usize::MAX,
    ensures
        ascending(ints(out@)),
        ints(out@).to_multiset() == ints(left@).to_multiset().add(ints(right@).to_multiset()),
        out.len() == left.len() + right.len(),
{
    let mut out: Vec<i32> = Vec::with_capacity(left.len() + right.len());
    let mut i: usize = 0;
    let mut j: usize = 0;
    let ghost l = ints(left@);
    let ghost r = ints(right@);
    proof {
        broadcast use vstd::multiset::group_multiset_axioms, vstd::seq_lib::group_to_multiset_ensures;

        assert(l.take(0) =~= Seq::<int>::empty());
        assert(r.take(0) =~= Seq::<int>::empty());
        assert(ints(out@) =~= Seq::<int>::empty());
        assert(Seq::<int>::empty().to_multiset() =~= Multiset::<int>::empty());
        assert(ints(out@).to_multiset() =~= l.take(0).to_multiset().add(r.take(0).to_multiset()));
    }
    while i < left.len() || j < right.len()
        invariant
            l == ints(left@),
            r == ints(right@),
            ascending(l),
            ascending(r),
            i <= left.len(),
            j <= right.len(),
            left.len() + right.len() <= usize::MAX,
            out.len() == i + j,
            ascending(ints(out@)),
            ints(out@).to_multiset() == l.take(i as int).to_multiset().add(
                r.take(j as int).to_multiset(),
            ),
            forall|a: int, b: int| 0 <= a < out.len() && i <= b < l.len() ==> ints(out@)[a] <= l[b],
            forall|a: int, b: int| 0 <= a < out.len() && j <= b < r.len() ==> ints(out@)[a] <= r[b],
        decreases left.len() - i + (right.len() - j),
    {
        let ghost before = ints(out@);
        let take_left = if i == left.len() {
            false
        } else if j == right.len() {
            true
        } else {
            left[i] <= right[j]
        };
        if take_left {
            let x = left[i];
            out.push(x);
            proof {
                assert(l[i as int] == x as int);
                assert(j < r.len() ==> x as int <= r[j as int]);
                assert(ints(out@) =~= before.push(x as int));
                assert(l.take(i + 1) =~= l.take(i as int).push(x as int));
                to_multiset_build(before, x as int);
                to_multiset_build(l.take(i as int), x as int);
                assert(ints(out@).to_multiset() =~= l.take(i + 1).to_multiset().add(
                    r.take(j as int).to_multiset(),
                ));
            }
            i += 1;
        } else {
            let x = right[j];
            out.push(x);
            proof {
                assert(r[j as int] == x as int);
                assert(i < l.len() ==> x as int <= l[i as int]);
                assert(ints(out@) =~= before.push(x as int));
                assert(r.take(j + 1) =~= r.take(j as int).push(x as int));
                to_multiset_build(before, x as int);
                to_multiset_build(r.take(j as int), x as int);
                assert(ints(out@).to_multiset() =~= l.take(i as int).to_multiset().add(
                    r.take(j + 1).to_multiset(),
                ));
            }
            j += 1;
        }
    }
    assert(l.take(i as int) =~= l);
    assert(r.take(j as int) =~= r);
    out
}

/// The keys `keys[lo..hi]` in ascending order.
fn sorted_range(keys: &Vec<i32>, lo: usize, hi: usize) -> (out: Vec<i32>)
    requires
        lo <= hi <= keys.len(),
    ensures
        is_sorting_of(ints(out@), ints(keys@).subrange(lo as int, hi as int)),
        out.len() == hi - lo,
    decreases hi - lo,
{
    let ghost whole = ints(keys@).subrange(lo as int, hi as int);
    if hi - lo <= 1 {
        let mut out: Vec<i32> = Vec::new();
        if hi - lo == 1 {
            out.push(keys[lo]);
        }
        assert(ints(out@) =~= whole);
        out
    } else {
        let mid: usize = lo + (hi - lo) / 2;
        let left = sorted_range(keys, lo, mid);
        let right = sorted_range(keys, mid, hi);
        let out = merge(&left, &right);
        proof {
            let a = ints(keys@).subrange(lo as int, mid as int);
            let b = ints(keys@).subrange(mid as int, hi as int);
            assert(whole =~= a + b);
            lemma_multiset_commutative(a, b);
        }
        out
    }
}

/// The keys in ascending order, in time proportional to `n log n`.
pub fn sorted_keys(keys: &Vec<i32>) -> (out: Vec<i32>)
    ensures
        is_sorting_of(ints(out@), ints(keys@)),
        out.len() == keys.len(),
{
    assert(ints(keys@).subrange(0, keys.len() as int) =~= ints(keys@));
    sorted_range(keys, 0, keys.len())
}

} // verus!
