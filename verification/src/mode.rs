use std::collections::HashMap;
use vstd::prelude::*;
use vstd::std_specs::hash::group_hash_axioms;
use crate::error::StatsError;
use crate::sample::{
    has_nan, ints, lemma_ordinals_are_ordinals, ordinal, ordinals, ordinals_of, pattern, pattern_of,
};

verus! {

/// How often `v` occurs in `s`.
pub open spec fn occurrences(s: Seq<int>, v: int) -> nat
    decreases s.len(),
{
    if s.len() == 0 {
        0
    } else {
        occurrences(s.drop_last(), v) + if s.last() == v {
            1nat
        } else {
            0nat
        }
    }
}

/// `o` is the mode of `s`: it occurs in `s`, nothing occurs more often, and
/// everything that stands before its first occurrence occurs less often.
/// Among several values that occur most often, the mode is thus the one that
/// is met first.
pub open spec fn is_mode_of(s: Seq<int>, o: int) -> bool {
    exists|first: int| is_mode_at(s, o, first)
}

/// `o` is the mode of `s`, and `first` is the place where it is first met.
pub open spec fn is_mode_at(s: Seq<int>, o: int, first: int) -> bool {
    &&& 0 <= first < s.len()
    &&& s[first] == o
    &&& forall|j: int| 0 <= j < s.len() ==> occurrences(s, #[trigger] s[j]) <= occurrences(s, o)
    &&& forall|j: int| 0 <= j < first ==> occurrences(s, #[trigger] s[j]) < occurrences(s, o)
}

/// What `mode` answers for the samples `data`.
pub open spec fn mode_spec(data: Seq<u32>, result: Result<u32, StatsError>) -> bool {
    if data.len() == 0 {
        result == Err::<u32, StatsError>(StatsError::EmptyInput)
    } else if has_nan(data) {
        result == Err::<u32, StatsError>(StatsError::InvalidValue)
    } else {
        &&& result matches Ok(m)
        &&& is_mode_of(ordinals(data), ordinal(m))
        &&& m == pattern(ordinal(m))
    }
}

/// A value occurs at most as often as the sequence is long.
pub proof fn lemma_occurrences_bounded(s: Seq<int>, v: int)
    ensures
        occurrences(s, v) <= s.len(),
    decreases s.len(),
{
    if s.len() > 0 {
        lemma_occurrences_bounded(s.drop_last(), v);
    }
}

/// Reading one more element raises the count of that element by one and
/// leaves every other count as it was.
pub proof fn lemma_occurrences_step(s: Seq<int>, i: int, v: int)
    requires
        0 <= i < s.len(),
    ensures
        occurrences(s.take(i + 1), v) == occurrences(s.take(i), v) + if s[i] == v {
            1nat
        } else {
            0nat
        },
{
    assert(s.take(i + 1).drop_last() =~= s.take(i));
}

/// A sequence has at most one mode.
pub proof fn lemma_mode_unique(s: Seq<int>, a: int, b: int)
    requires
        is_mode_of(s, a),
        is_mode_of(s, b),
    ensures
        a == b,
{
    let fa = choose|first: int| is_mode_at(s, a, first);
    let fb = choose|first: int| is_mode_at(s, b, first);
    if fa < fb {
        assert(occurrences(s, s[fa]) < occurrences(s, b));
        assert(occurrences(s, s[fb]) <= occurrences(s, a));
    } else if fb < fa {
        assert(occurrences(s, s[fb]) < occurrences(s, a));
        assert(occurrences(s, s[fa]) <= occurrences(s, b));
    }
}

/// `tally` holds, for every key met in `s`, how often it occurs there.
pub open spec fn is_tally_of(tally: Map<i32, usize>, s: Seq<int>) -> bool {
    &&& forall|k: i32| #[trigger] tally.contains_key(k) ==> tally[k] as nat == occurrences(s, k as int)
    &&& forall|k: i32| !(#[trigger] tally.contains_key(k)) ==> occurrences(s, k as int) == 0
}

/// Counts how often each key occurs.
fn tally_keys(keys: &Vec<i32>) -> (tally: HashMap<i32, usize>)
    ensures
        is_tally_of(tally@, ints(keys@)),
{
    broadcast use group_hash_axioms;

    let ghost s = ints(keys@);
    let mut tally: HashMap<i32, usize> = HashMap::new();
    let mut i: usize = 0;
    while i < keys.len()
        invariant
            i <= keys.len(),
            s == ints(keys@),
            is_tally_of(tally@, s.take(i as int)),
        decreases keys.len() - i,
    {
        let k = keys[i];
        let seen: usize = match tally.get(&k) {
            Some(count) => *count,
            None => 0,
        };
        proof {
            lemma_occurrences_bounded(s.take(i as int), k as int);
            assert forall|v: i32| true implies occurrences(s.take(i + 1), v as int) == occurrences(
                s.take(i as int),
                v as int,
            ) + if v == k {
                1nat
            } else {
                0nat
            } by {
                lemma_occurrences_step(s, i as int, v as int);
            }
        }
        tally.insert(k, seen + 1);
        i += 1;
    }
    assert(s.take(keys.len() as int) =~= s);
    tally
}

/// The value that occurs most often among the samples, given and returned as
/// binary32 patterns.
///
/// Two samples are the same value when they are equal as numbers, so the two
/// zeros count as one value.  Where several values occur most often, the one
/// that is met first in `data` is the mode.  An empty input is refused with
/// `EmptyInput`, one that holds a NaN with `InvalidValue`.  A zero comes back
/// with a clear sign bit.
pub fn mode(data: &Vec<u32>) -> (result: Result<u32, StatsError>)
    ensures
        mode_spec(data@, result),
{
    broadcast use group_hash_axioms;

    if data.len() == 0 {
        return Err(StatsError::EmptyInput);
    }
    let keys = match ordinals_of(data) {
        Ok(keys) => keys,
        Err(error) => {
            return Err(error);
        },
    };
    let ghost s = ordinals(data@);
    let tally = tally_keys(&keys);
    let mut best: i32 = keys[0];
    let mut best_count: usize = match tally.get(&best) {
        Some(count) => *count,
        None => 0,
    };
    let ghost mut first: int = 0;
    let mut j: usize = 1;
    while j < keys.len()
        invariant
            1 <= j <= keys.len(),
            s == ints(keys@),
            is_tally_of(tally@, s),
            0 <= first < j,
            s[first] == best,
            best_count as nat == occurrences(s, best as int),
            forall|t: int| 0 <= t < j ==> occurrences(s, #[trigger] s[t]) <= best_count,
            forall|t: int| 0 <= t < first ==> occurrences(s, #[trigger] s[t]) < best_count,
        decreases keys.len() - j,
    {
        let k = keys[j];
        let count: usize = match tally.get(&k) {
            Some(count) => *count,
            None => 0,
        };
        assert(count as nat == occurrences(s, s[j as int]));
        if count > best_count {
            best = k;
            best_count = count;
            proof {
                first = j as int;
            }
        }
        j += 1;
    }
    proof {
        assert(is_mode_at(s, best as int, first));
        lemma_ordinals_are_ordinals(data@);
    }
    Ok(pattern_of(best))
}

} // verus!
