use vstd::prelude::*;
use crate::error::StatsError;

verus! {

/// The sign bit of a binary32 pattern.
pub const SIGN_BIT: u32 = 0x8000_0000;

/// The pattern of positive infinity.  A larger magnitude is a NaN.
pub const INFINITY_BITS: u32 = 0x7f80_0000;

/// The pattern without its sign bit.
pub open spec fn magnitude(bits: u32) -> int {
    if bits >= SIGN_BIT {
        bits - SIGN_BIT
    } else {
        bits as int
    }
}

/// Whether the pattern encodes a NaN: all exponent bits set and a non-zero fraction.
pub open spec fn is_nan(bits: u32) -> bool {
    magnitude(bits) > INFINITY_BITS
}

/// Whether the pattern encodes zero, with either sign.
pub open spec fn is_zero(bits: u32) -> bool {
    magnitude(bits) == 0
}

/// The place of a sample among all samples, as an integer.
///
/// For two patterns that are not NaN, the numbers they encode compare as their
/// ordinals do, and they are equal as numbers exactly when their ordinals are
/// equal; `value::lemma_ordinals_order_as_values` proves it of the finite
/// ones.  The two zeros share the ordinal 0.
pub open spec fn ordinal(bits: u32) -> int {
    if bits >= SIGN_BIT {
        -magnitude(bits)
    } else {
        magnitude(bits)
    }
}

/// Whether two patterns encode the same number.  A NaN is no number, and so
/// not even the same as itself.
pub open spec fn same_number(a: u32, b: u32) -> bool {
    !is_nan(a) && !is_nan(b) && ordinal(a) == ordinal(b)
}

/// Whether `o` is the ordinal of some sample that is a number.
pub open spec fn is_ordinal(o: int) -> bool {
    -(INFINITY_BITS as int) <= o <= INFINITY_BITS as int
}

/// The pattern that stands for an ordinal.  Zero is written with a clear sign bit.
pub open spec fn pattern(o: int) -> u32
    recommends
        is_ordinal(o),
{
    if o < 0 {
        (SIGN_BIT - o) as u32
    } else {
        o as u32
    }
}

/// The ordinals of a sequence of samples, element by element.
pub open spec fn ordinals(data: Seq<u32>) -> Seq<int> {
    data.map_values(|bits: u32| ordinal(bits))
}

/// Whether some sample of the sequence is a NaN.
pub open spec fn has_nan(data: Seq<u32>) -> bool {
    exists|i: int| 0 <= i < data.len() && is_nan(#[trigger] data[i])
}

/// Machine keys as mathematical integers.
pub open spec fn ints(keys: Seq<i32>) -> Seq<int> {
    keys.map_values(|k: i32| k as int)
}

/// Where no sample is a NaN, every element of `ordinals` is an ordinal.
pub proof fn lemma_ordinals_are_ordinals(data: Seq<u32>)
    requires
        !has_nan(data),
    ensures
        forall|i: int| 0 <= i < data.len() ==> is_ordinal(#[trigger] ordinals(data)[i]),
{
    assert forall|i: int| 0 <= i < data.len() implies is_ordinal(#[trigger] ordinals(data)[i]) by {
        assert(!is_nan(data[i]));
    }
}

/// The ordinal of a sample, or `None` for a NaN.
pub fn ordinal_of(bits: u32) -> (result: Option<i32>)
    ensures
        is_nan(bits) <==> result is None,
        result matches Some(o) ==> o == ordinal(bits) && is_ordinal(o as int),
{
    if bits >= SIGN_BIT {
        let m: u32 = bits - SIGN_BIT;
        if m > INFINITY_BITS {
            None
        } else {
            Some(-(m as i32))
        }
    } else if bits > INFINITY_BITS {
        None
    } else {
        Some(bits as i32)
    }
}

/// The pattern of an ordinal.
pub fn pattern_of(o: i32) -> (bits: u32)
    requires
        is_ordinal(o as int),
    ensures
        bits == pattern(o as int),
        ordinal(bits) == o,
        !is_nan(bits),
{
    if o < 0 {
        SIGN_BIT + ((-o) as u32)
    } else {
        o as u32
    }
}

/// Whether the pattern encodes zero, with either sign.
pub fn is_zero_pattern(bits: u32) -> (zero: bool)
    ensures
        zero == is_zero(bits),
{
    bits == 0 || bits == SIGN_BIT
}

/// Whether two patterns encode the same number.
pub fn is_same_number(a: u32, b: u32) -> (same: bool)
    ensures
        same == same_number(a, b),
{
    match (ordinal_of(a), ordinal_of(b)) {
        (Some(x), Some(y)) => x == y,
        _ => false,
    }
}

/// The ordinals of all samples, in order; `InvalidValue` when one of them is a NaN.
pub fn ordinals_of(data: &Vec<u32>) -> (result: Result<Vec<i32>, StatsError>)
    ensures
        has_nan(data@) <==> result == Err::<Vec<i32>, StatsError>(StatsError::InvalidValue),
        !has_nan(data@) <==> result is Ok,
        result matches Ok(keys) ==> keys.len() == data.len() && ints(keys@) == ordinals(data@),
{
    let mut keys: Vec<i32> = Vec::with_capacity(data.len());
    let mut i: usize = 0;
    while i < data.len()
        invariant
            i <= data.len(),
            keys.len() == i,
            forall|j: int| 0 <= j < i ==> !is_nan(#[trigger] data@[j]),
            forall|j: int| 0 <= j < i ==> keys@[j] as int == ordinal(#[trigger] data@[j]),
        decreases data.len() - i,
    {
        match ordinal_of(data[i]) {
            None => {
                return Err(StatsError::InvalidValue);
            },
            Some(o) => {
                keys.push(o);
            },
        }
        i += 1;
    }
    assert(ints(keys@) =~= ordinals(data@));
    Ok(keys)
}

} // verus!
