use vstd::arithmetic::power2::{lemma_pow2_pos, lemma_pow2_strictly_increases, lemma_pow2_unfold, pow2};
use vstd::prelude::*;
use crate::sample::{magnitude, ordinal, INFINITY_BITS, SIGN_BIT};

verus! {

/// The weight of the hidden bit of a significand, and the number of
/// fractions that share one exponent.
pub const HIDDEN_BIT: u32 = 0x80_0000;

/// Whether the pattern encodes a finite number.
pub open spec fn is_finite(bits: u32) -> bool {
    magnitude(bits) < INFINITY_BITS
}

/// The absolute value encoded by a pattern of magnitude `m`, in units of
/// `2^-149`: the fraction alone where the exponent field is zero, else the
/// fraction with its hidden bit, doubled once for each step of the exponent
/// above one.
pub open spec fn weight(m: int) -> int {
    let exponent = m / (HIDDEN_BIT as int);
    let fraction = m % (HIDDEN_BIT as int);
    if exponent == 0 {
        fraction
    } else {
        (HIDDEN_BIT + fraction) * pow2((exponent - 1) as nat)
    }
}

/// The number that a finite pattern encodes, in units of `2^-149`.
pub open spec fn scaled_value(bits: u32) -> int {
    if bits >= SIGN_BIT {
        -weight(magnitude(bits))
    } else {
        weight(magnitude(bits))
    }
}

/// A larger magnitude encodes a larger absolute value.
pub proof fn lemma_weight_increases(m1: int, m2: int)
    requires
        0 <= m1 < m2,
    ensures
        0 <= weight(m1) < weight(m2),
{
    let h = HIDDEN_BIT as int;
    let e1 = m1 / h;
    let f1 = m1 % h;
    let e2 = m2 / h;
    let f2 = m2 % h;
    assert(0 <= e1 <= e2);
    assert(0 <= f1 < h && 0 <= f2 < h);
    if e1 == 0 {
        if e2 > 0 {
            let upper = pow2((e2 - 1) as nat) as int;
            lemma_pow2_pos((e2 - 1) as nat);
            assert((h + f2) * upper >= h) by (nonlinear_arith)
                requires
                    upper >= 1,
                    f2 >= 0,
                    h >= 0,
            ;
        }
    } else {
        let lower = pow2((e1 - 1) as nat) as int;
        let upper = pow2((e2 - 1) as nat) as int;
        lemma_pow2_pos((e1 - 1) as nat);
        lemma_pow2_pos((e2 - 1) as nat);
        assert(0 <= (h + f1) * lower) by (nonlinear_arith)
            requires
                lower >= 1,
                f1 >= 0,
                h >= 0,
        ;
        if e1 == e2 {
            assert(f1 < f2);
            assert((h + f1) * lower < (h + f2) * lower) by (nonlinear_arith)
                requires
                    lower >= 1,
                    f1 < f2,
            ;
        } else {
            lemma_pow2_unfold(e1 as nat);
            if e1 < e2 - 1 {
                lemma_pow2_strictly_increases(e1 as nat, (e2 - 1) as nat);
            }
            assert(2 * lower <= upper);
            assert((h + f1) * lower < (h + f2) * upper) by (nonlinear_arith)
                requires
                    lower >= 1,
                    2 * lower <= upper,
                    0 <= f1 < h,
                    0 <= f2,
            ;
        }
    }
}

/// Finite samples compare as numbers exactly as their ordinals compare, and
/// they are the same number exactly when their ordinals are equal.
pub proof fn lemma_ordinals_order_as_values(a: u32, b: u32)
    requires
        is_finite(a),
        is_finite(b),
    ensures
        ordinal(a) < ordinal(b) <==> scaled_value(a) < scaled_value(b),
        ordinal(a) == ordinal(b) <==> scaled_value(a) == scaled_value(b),
{
    let ma = magnitude(a);
    let mb = magnitude(b);
    assert(weight(0) == 0);
    if ma < mb {
        lemma_weight_increases(ma, mb);
    } else if mb < ma {
        lemma_weight_increases(mb, ma);
    }
    if 0 < ma {
        lemma_weight_increases(0, ma);
    }
    if 0 < mb {
        lemma_weight_increases(0, mb);
    }
}

} // verus!
