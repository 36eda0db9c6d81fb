use vstd::prelude::*;
use vstd::relations::sorted_by;
use vstd::seq_lib::lemma_sorted_unique;
use crate::error::StatsError;
use crate::sample::{
    has_nan, ints, is_nan, is_ordinal, lemma_ordinals_are_ordinals, ordinal, ordinals, ordinals_of,
    pattern, pattern_of,
};
use crate::sorting::{ascending, is_sorting_of, lemma_map_keeps_elements, sorted_keys};

verus! {

/// The centre of a sorted sample.
#[derive(Clone, Copy, Debug, PartialEq, Eq, Structural)]
pub enum Median {
    /// An odd number of samples: the one in the middle is the median.
    Middle(u32),
    /// An even number of samples: the median is the mean of the two central
    /// ones, the lower first.
    Between(u32, u32),
}

/// The order of the ordinals.
pub open spec fn at_most() -> spec_fn(int, int) -> bool {
    |x: int, y: int| x <= y
}

/// The ordinals of the samples in ascending order.
pub open spec fn sorted_ordinals(data: Seq<u32>) -> Seq<int> {
    ordinals(data).sort_by(at_most())
}

/// The centre of a non-empty ascending sequence of ordinals, as patterns.
pub open spec fn centre(sorted: Seq<int>) -> Median
    recommends
        sorted.len() > 0,
{
    let mid = (sorted.len() / 2) as int;
    if sorted.len() % 2 == 0 {
        Median::Between(pattern(sorted[mid - 1]), pattern(sorted[mid]))
    } else {
        Median::Middle(pattern(sorted[mid]))
    }
}

/// What `median_f32` answers for the samples `data`.
pub open spec fn median_spec(data: Seq<u32>) -> Result<Median, StatsError> {
    if data.len() == 0 {
        Err(StatsError::EmptyInput)
    } else if has_nan(data) {
        Err(StatsError::InvalidValue)
    } else {
        Ok(centre(sorted_ordinals(data)))
    }
}

/// `sorted_ordinals(data)` is the one ascending sequence that holds the
/// ordinals of `data`, each as often as it occurs there.
pub proof fn lemma_sorted_ordinals(data: Seq<u32>, s: Seq<int>)
    ensures
        is_sorting_of(sorted_ordinals(data), ordinals(data)),
        is_sorting_of(s, ordinals(data)) ==> s == sorted_ordinals(data),
{
    let t = sorted_ordinals(data);
    ordinals(data).lemma_sort_by_ensures(at_most());
    assert(ascending(t)) by {
        assert forall|i: int, j: int| 0 <= i <= j < t.len() implies t[i] <= t[j] by {
            if i < j {
                assert(at_most()(t[i], t[j]));
            }
        }
    }
    if is_sorting_of(s, ordinals(data)) {
        assert(sorted_by(s, at_most()));
        lemma_sorted_unique(s, t, at_most());
    }
}

/// The median does not depend on the order in which the samples are given.
pub proof fn lemma_median_ignores_order(a: Seq<u32>, b: Seq<u32>)
    requires
        a.to_multiset() == b.to_multiset(),
    ensures
        median_spec(a) == median_spec(b),
{
    a.to_multiset_ensures();
    b.to_multiset_ensures();
    assert(has_nan(a) == has_nan(b)) by {
        if has_nan(a) {
            let i = choose|i: int| 0 <= i < a.len() && is_nan(#[trigger] a[i]);
            assert(a.contains(a[i]));
            assert(a.to_multiset().count(a[i]) > 0);
            assert(b.contains(a[i]));
        }
        if has_nan(b) {
            let i = choose|i: int| 0 <= i < b.len() && is_nan(#[trigger] b[i]);
            assert(b.contains(b[i]));
            assert(b.to_multiset().count(b[i]) > 0);
            assert(a.contains(b[i]));
        }
    }
    lemma_map_keeps_elements(a, b, |x: u32| ordinal(x));
    assert(a.map_values(|x: u32| ordinal(x)) =~= ordinals(a));
    assert(b.map_values(|x: u32| ordinal(x)) =~= ordinals(b));
    lemma_sorted_ordinals(a, sorted_ordinals(b));
    lemma_sorted_ordinals(b, sorted_ordinals(b));
}

/// The median of the samples, given and returned as binary32 patterns.
///
/// The samples are sorted in a private copy.  An odd number of them has its
/// median in the middle; for an even number the two central samples are
/// returned, whose mean the caller takes.  An empty input is refused with
/// `EmptyInput`, one that holds a NaN with `InvalidValue`.  A zero comes back
/// with a clear sign bit.
pub fn median_f32(data: &Vec<u32>) -> (result: Result<Median, StatsError>)
    ensures
        result == median_spec(data@),
{
    if data.len() == 0 {
        return Err(StatsError::EmptyInput);
    }
    let keys = match ordinals_of(data) {
        Ok(keys) => keys,
        Err(error) => {
            return Err(error);
        },
    };
    let sorted = sorted_keys(&keys);
    proof {
        lemma_sorted_ordinals(data@, ints(sorted@));
        lemma_ordinals_are_ordinals(data@);
        ints(sorted@).to_multiset_ensures();
        ordinals(data@).to_multiset_ensures();
        assert forall|i: int| 0 <= i < sorted.len() implies is_ordinal(
            #[trigger] sorted@[i] as int,
        ) by {
            let x = ints(sorted@)[i];
            assert(ints(sorted@).contains(x));
            assert(ints(sorted@).to_multiset().count(x) > 0);
            assert(ordinals(data@).contains(x));
        }
    }
    let mid: usize = sorted.len() / 2;
    if sorted.len() % 2 == 0 {
        Ok(Median::Between(pattern_of(sorted[mid - 1]), pattern_of(sorted[mid])))
    } else {
        Ok(Median::Middle(pattern_of(sorted[mid])))
    }
}

} // verus!
