use vstd::prelude::*;
use crate::error::StatsError;
use crate::sample::{
    has_nan, ints, lemma_ordinals_are_ordinals, ordinal, ordinals, ordinals_of, pattern, pattern_of,
};
use crate::value::{is_finite, lemma_ordinals_order_as_values, scaled_value};

verus! {

/// `m` occurs in `s` and no element of `s` is larger.
pub open spec fn is_max_of(s: Seq<int>, m: int) -> bool {
    &&& exists|i: int| 0 <= i < s.len() && s[i] == m
    &&& forall|i: int| 0 <= i < s.len() ==> s[i] <= m
}

/// `m` occurs in `s` and no element of `s` is smaller.
pub open spec fn is_min_of(s: Seq<int>, m: int) -> bool {
    &&& exists|i: int| 0 <= i < s.len() && s[i] == m
    &&& forall|i: int| 0 <= i < s.len() ==> m <= s[i]
}

/// The counts of `data` as mathematical integers.
pub open spec fn counts(data: Seq<usize>) -> Seq<int> {
    data.map_values(|x: usize| x as int)
}

/// What `max_f32` answers for the samples `data`.
pub open spec fn max_f32_spec(data: Seq<u32>, result: Result<u32, StatsError>) -> bool {
    if data.len() == 0 {
        result == Err::<u32, StatsError>(StatsError::EmptyInput)
    } else if has_nan(data) {
        result == Err::<u32, StatsError>(StatsError::InvalidValue)
    } else {
        &&& result matches Ok(m)
        &&& is_max_of(ordinals(data), ordinal(m))
        &&& m == pattern(ordinal(m))
    }
}

/// What `min_f32` answers for the samples `data`.
pub open spec fn min_f32_spec(data: Seq<u32>, result: Result<u32, StatsError>) -> bool {
    if data.len() == 0 {
        result == Err::<u32, StatsError>(StatsError::EmptyInput)
    } else if has_nan(data) {
        result == Err::<u32, StatsError>(StatsError::InvalidValue)
    } else {
        &&& result matches Ok(m)
        &&& is_min_of(ordinals(data), ordinal(m))
        &&& m == pattern(ordinal(m))
    }
}

/// The largest element of `data`, or `EmptyInput` when there is none.
pub fn max_usize(data: &Vec<usize>) -> (result: Result<usize, StatsError>)
    ensures
        data.len() == 0 <==> result == Err::<usize, StatsError>(StatsError::EmptyInput),
        data.len() > 0 <==> result is Ok,
        result matches Ok(m) ==> is_max_of(counts(data@), m as int),
{
    if data.len() == 0 {
        return Err(StatsError::EmptyInput);
    }
    let ghost s = counts(data@);
    let mut best: usize = data[0];
    let ghost mut at: int = 0;
    let mut i: usize = 1;
    while i < data.len()
        invariant
            1 <= i <= data.len(),
            s == counts(data@),
            0 <= at < i && s[at] == best,
            forall|j: int| 0 <= j < i ==> s[j] <= best,
        decreases data.len() - i,
    {
        if data[i] > best {
            best = data[i];
            proof {
                at = i as int;
            }
        }
        i += 1;
    }
    Ok(best)
}

/// The smallest element of `data`, or `EmptyInput` when there is none.
pub fn min_usize(data: &Vec<usize>) -> (result: Result<usize, StatsError>)
    ensures
        data.len() == 0 <==> result == Err::<usize, StatsError>(StatsError::EmptyInput),
        data.len() > 0 <==> result is Ok,
        result matches Ok(m) ==> is_min_of(counts(data@), m as int),
{
    if data.len() == 0 {
        return Err(StatsError::EmptyInput);
    }
    let ghost s = counts(data@);
    let mut best: usize = data[0];
    let ghost mut at: int = 0;
    let mut i: usize = 1;
    while i < data.len()
        invariant
            1 <= i <= data.len(),
            s == counts(data@),
            0 <= at < i && s[at] == best,
            forall|j: int| 0 <= j < i ==> best <= s[j],
        decreases data.len() - i,
    {
        if data[i] < best {
            best = data[i];
            proof {
                at = i as int;
            }
        }
        i += 1;
    }
    Ok(best)
}

/// The largest of the keys.
fn largest_key(keys: &Vec<i32>) -> (best: i32)
    requires
        keys.len() > 0,
    ensures
        is_max_of(ints(keys@), best as int),
{
    let ghost s = ints(keys@);
    let mut best: i32 = keys[0];
    let ghost mut at: int = 0;
    let mut i: usize = 1;
    while i < keys.len()
        invariant
            1 <= i <= keys.len(),
            s == ints(keys@),
            0 <= at < i && s[at] == best,
            forall|j: int| 0 <= j < i ==> s[j] <= best,
        decreases keys.len() - i,
    {
        if keys[i] > best {
            best = keys[i];
            proof {
                at = i as int;
            }
        }
        i += 1;
    }
    best
}

/// The smallest of the keys.
fn smallest_key(keys: &Vec<i32>) -> (best: i32)
    requires
        keys.len() > 0,
    ensures
        is_min_of(ints(keys@), best as int),
{
    let ghost s = ints(keys@);
    let mut best: i32 = keys[0];
    let ghost mut at: int = 0;
    let mut i: usize = 1;
    while i < keys.len()
        invariant
            1 <= i <= keys.len(),
            s == ints(keys@),
            0 <= at < i && s[at] == best,
            forall|j: int| 0 <= j < i ==> best <= s[j],
        decreases keys.len() - i,
    {
        if keys[i] < best {
            best = keys[i];
            proof {
                at = i as int;
            }
        }
        i += 1;
    }
    best
}

/// The largest of the samples, given and returned as binary32 patterns.
///
/// An empty input is refused with `EmptyInput`, one that holds a NaN with
/// `InvalidValue`.  A zero comes back with a clear sign bit.
pub fn max_f32(data: &Vec<u32>) -> (result: Result<u32, StatsError>)
    ensures
        max_f32_spec(data@, result),
{
    if data.len() == 0 {
        return Err(StatsError::EmptyInput);
    }
    match ordinals_of(data) {
        Err(error) => Err(error),
        Ok(keys) => {
            let best = largest_key(&keys);
            proof {
                lemma_ordinals_are_ordinals(data@);
            }
            Ok(pattern_of(best))
        },
    }
}

/// The smallest of the samples, given and returned as binary32 patterns.
///
/// An empty input is refused with `EmptyInput`, one that holds a NaN with
/// `InvalidValue`.  A zero comes back with a clear sign bit.
pub fn min_f32(data: &Vec<u32>) -> (result: Result<u32, StatsError>)
    ensures
        min_f32_spec(data@, result),
{
    if data.len() == 0 {
        return Err(StatsError::EmptyInput);
    }
    match ordinals_of(data) {
        Err(error) => Err(error),
        Ok(keys) => {
            let best = smallest_key(&keys);
            proof {
                lemma_ordinals_are_ordinals(data@);
            }
            Ok(pattern_of(best))
        },
    }
}

/// Every element lies between the smallest and the largest.
pub proof fn lemma_extrema_enclose_usize(data: Seq<usize>, lo: usize, hi: usize, i: int)
    requires
        is_min_of(counts(data), lo as int),
        is_max_of(counts(data), hi as int),
        0 <= i < data.len(),
    ensures
        lo <= data[i] <= hi,
{
    assert(counts(data)[i] == data[i] as int);
}

/// Every sample lies between the smallest and the largest: as numbers the
/// samples compare as their ordinals do.
pub proof fn lemma_extrema_enclose_f32(data: Seq<u32>, lo: u32, hi: u32, i: int)
    requires
        min_f32_spec(data, Ok(lo)),
        max_f32_spec(data, Ok(hi)),
        0 <= i < data.len(),
    ensures
        ordinal(lo) <= ordinal(data[i]) <= ordinal(hi),
{
    assert(ordinals(data)[i] == ordinal(data[i]));
}

/// The same of the numbers themselves, where they are finite: the number
/// that a sample encodes lies between those that the smallest and the
/// largest encode.
pub proof fn lemma_extrema_enclose_values(data: Seq<u32>, lo: u32, hi: u32, i: int)
    requires
        min_f32_spec(data, Ok(lo)),
        max_f32_spec(data, Ok(hi)),
        0 <= i < data.len(),
        is_finite(lo),
        is_finite(hi),
        is_finite(data[i]),
    ensures
        scaled_value(lo) <= scaled_value(data[i]) <= scaled_value(hi),
{
    lemma_extrema_enclose_f32(data, lo, hi, i);
    lemma_ordinals_order_as_values(lo, data[i]);
    lemma_ordinals_order_as_values(data[i], hi);
}

} // verus!
