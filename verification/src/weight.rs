//! Turning a probability into the pair of integer weights by which a
//! two-way weighted choice is made.
//!
//! The probability arrives as the bit pattern of an IEEE 754 binary64 number
//! (what `f64::to_bits` returns), so that everything here is integer
//! arithmetic. A finite binary64 number is `significand * 2^(scale - 1075)`;
//! this module works with the numerator of that value over the fixed
//! denominator `2^1075`, which it calls the number's magnitude.

use vstd::prelude::*;
use vstd::arithmetic::div_mod::{
    lemma_basic_div,
    lemma_div_is_ordered,
    lemma_div_multiples_vanish_quotient,
    lemma_fundamental_div_mod,
    lemma_mod_bound,
};
use vstd::arithmetic::mul::{
    lemma_mul_inequality,
    lemma_mul_is_commutative,
    lemma_mul_strict_inequality,
    lemma_mul_strictly_positive,
};
use vstd::arithmetic::power2::{
    lemma2_to64,
    lemma2_to64_rest,
    lemma_pow2_adds,
    lemma_pow2_pos,
    lemma_pow2_strictly_increases,
    pow2,
};
use vstd::bits::lemma_u64_shr_is_div;
use vstd::set_lib::{lemma_int_range, set_int_range};

verus! {

/// The two weights of every pair add up to this.
pub const WEIGHT_BASE: u32 = 0x8000_0000;

/// Bit pattern of the binary64 number 1.0.
pub const ONE_BITS: u64 = 0x3FF0_0000_0000_0000;

/// Bit pattern of the binary64 number 0.5.
pub const HALF_BITS: u64 = 0x3FE0_0000_0000_0000;

/// The weights of the two branches of an optional value: `absent` for the
/// branch that yields nothing, `present` for the branch that wraps a value.
#[derive(Clone, Copy, Debug, PartialEq, Eq)]
pub struct WeightPair {
    pub absent: u32,
    pub present: u32,
}

impl WeightPair {
    /// Neither weight is zero, and together they make up `WEIGHT_BASE`.
    pub open spec fn wf(self) -> bool {
        &&& self.absent >= 1
        &&& self.present >= 1
        &&& self.absent + self.present == WEIGHT_BASE
    }

    /// The point that a draw of thirty-two bits falls on, among
    /// `WEIGHT_BASE` points of which each is hit by two draws.
    pub open spec fn point_of(draw: u32) -> int {
        draw as int / 2
    }

    /// The draw selects the present branch: its point lies past the share of
    /// the absent branch, which comes first.
    pub open spec fn selects_present(self, draw: u32) -> bool {
        Self::point_of(draw) >= self.absent
    }

    /// Chooses the branch for a draw: `true` for the present one.
    pub fn select(&self, draw: u32) -> (present: bool)
        ensures
            present == self.selects_present(draw),
    {
        draw / 2 >= self.absent
    }
}

/// The error for a probability that does not lie strictly between 0 and 1.
/// It carries the rejected bit pattern.
#[derive(Clone, Copy, Debug, PartialEq, Eq)]
pub struct InvalidProbability {
    pub bits: u64,
}

/// The sign bit of a binary64 bit pattern.
pub open spec fn sign_bit(bits: u64) -> bool {
    bits >= 0x8000_0000_0000_0000
}

/// The eleven-bit exponent field.
pub open spec fn exponent_field(bits: u64) -> nat {
    ((bits / 0x10_0000_0000_0000) % 0x800) as nat
}

/// The fifty-two-bit fraction field.
pub open spec fn fraction_field(bits: u64) -> nat {
    (bits % 0x10_0000_0000_0000) as nat
}

/// The pattern stands for a number, not for an infinity or a NaN.
pub open spec fn is_finite(bits: u64) -> bool {
    exponent_field(bits) != 0x7FF
}

/// The integer significand: the fraction, with the implicit leading one
/// unless the number is subnormal.
pub open spec fn significand(bits: u64) -> nat {
    if exponent_field(bits) == 0 {
        fraction_field(bits)
    } else {
        0x10_0000_0000_0000 + fraction_field(bits)
    }
}

/// The power of two that the significand is scaled by, counted from
/// `2^-1075`: subnormal numbers share the scale of the smallest normal ones.
pub open spec fn scale(bits: u64) -> nat {
    if exponent_field(bits) == 0 {
        1
    } else {
        exponent_field(bits)
    }
}

/// The absolute value of a finite pattern, in units of `2^-1075`.
pub open spec fn magnitude(bits: u64) -> nat {
    significand(bits) * pow2(scale(bits))
}

/// The pattern is a number strictly between 0 and 1.
pub open spec fn is_probability(bits: u64) -> bool {
    &&& !sign_bit(bits)
    &&& is_finite(bits)
    &&& 0 < magnitude(bits) < pow2(1075)
}

/// The weight of the present branch for a probability `p`: the integer part
/// of `p * 2^31`, kept within `1 ..= WEIGHT_BASE - 1` so that neither branch
/// is ever left without weight.
pub open spec fn weight_of_present(bits: u64) -> nat {
    let scaled = magnitude(bits) / pow2(1044);
    if scaled < 1 {
        1
    } else if scaled > WEIGHT_BASE - 1 {
        (WEIGHT_BASE - 1) as nat
    } else {
        scaled
    }
}

/// The weight of the absent branch: what is left of `WEIGHT_BASE`.
pub open spec fn weight_of_absent(bits: u64) -> nat {
    (WEIGHT_BASE - weight_of_present(bits)) as nat
}

/// The weight pair of a probability.
pub open spec fn weights_of(bits: u64) -> WeightPair {
    WeightPair { absent: weight_of_absent(bits) as u32, present: weight_of_present(bits) as u32 }
}

proof fn lemma_fields(bits: u64)
    ensures
        bits == (if sign_bit(bits) { 0x8000_0000_0000_0000int } else { 0 })
            + exponent_field(bits) * 0x10_0000_0000_0000 + fraction_field(bits),
        exponent_field(bits) < 0x800,
        fraction_field(bits) < 0x10_0000_0000_0000,
{
}

/// A product of a significand below `2^53` and a power of two stays below
/// the next power of two.
proof fn lemma_magnitude_below(bits: u64, e: nat)
    requires
        scale(bits) <= e,
    ensures
        magnitude(bits) < pow2(53 + e),
{
    lemma_fields(bits);
    lemma2_to64_rest();
    let s = significand(bits);
    let k = scale(bits);
    assert(s < pow2(53));
    lemma_pow2_pos(k);
    lemma_mul_strict_inequality(s as int, pow2(53) as int, pow2(k) as int);
    lemma_pow2_adds(53, k);
    if k < e {
        lemma_pow2_strictly_increases(53 + k, 53 + e);
    }
}

/// A normal number is at least `2^52` scaled by its exponent.
proof fn lemma_magnitude_at_least(bits: u64)
    requires
        exponent_field(bits) != 0,
    ensures
        magnitude(bits) >= pow2(52 + exponent_field(bits)),
{
    lemma2_to64_rest();
    let s = significand(bits);
    let k = scale(bits);
    lemma_pow2_pos(k);
    lemma_mul_inequality(pow2(52) as int, s as int, pow2(k) as int);
    lemma_pow2_adds(52, k);
}

/// Among bit patterns, the probabilities are exactly those strictly between
/// the patterns of 0.0 and 1.0.
pub proof fn lemma_probability_patterns(bits: u64)
    ensures
        is_probability(bits) <==> 0 < bits < ONE_BITS,
{
    lemma_fields(bits);
    if 0 < bits < ONE_BITS {
        assert(exponent_field(bits) <= 1022);
        lemma_magnitude_below(bits, 1022);
        assert(significand(bits) > 0);
        lemma_pow2_pos(scale(bits));
        lemma_mul_strictly_positive(significand(bits) as int, pow2(scale(bits)) as int);
    } else if bits == 0 {
        assert(significand(bits) == 0);
        assert(magnitude(bits) == 0) by (nonlinear_arith)
            requires
                magnitude(bits) == significand(bits) * pow2(scale(bits)),
                significand(bits) == 0,
        ;
    } else if !sign_bit(bits) && is_finite(bits) {
        assert(exponent_field(bits) >= 1023);
        lemma_magnitude_at_least(bits);
        if exponent_field(bits) > 1023 {
            lemma_pow2_strictly_increases(1075, 52 + exponent_field(bits));
        }
    }
}

/// The integer part of a probability times `2^31`, read off the bits: the
/// significand shifted right, or zero where the shift would leave nothing.
proof fn lemma_scaled(bits: u64)
    requires
        0 < bits < ONE_BITS,
    ensures
        exponent_field(bits) < 992 ==> magnitude(bits) / pow2(1044) == 0,
        exponent_field(bits) >= 992 ==> magnitude(bits) / pow2(1044) == significand(bits) / pow2(
            (1044 - exponent_field(bits)) as nat,
        ),
        magnitude(bits) / pow2(1044) < WEIGHT_BASE,
{
    lemma_fields(bits);
    lemma2_to64();
    lemma2_to64_rest();
    let e = exponent_field(bits);
    let s = significand(bits);
    lemma_pow2_pos(1044);
    if e < 992 {
        lemma_magnitude_below(bits, 991);
        lemma_basic_div(magnitude(bits) as int, pow2(1044) as int);
    } else {
        let k = (1044 - e) as nat;
        lemma_pow2_pos(e);
        lemma_pow2_pos(k);
        lemma_pow2_adds(e, k);
        lemma_div_multiples_vanish_quotient(pow2(e) as int, s as int, pow2(k) as int);
        lemma_mul_is_commutative(pow2(e) as int, s as int);
        lemma_mul_is_commutative(pow2(e) as int, pow2(k) as int);
    }
    lemma_magnitude_below(bits, 1022);
    lemma_pow2_adds(31, 1044);
    assert(magnitude(bits) / pow2(1044) < pow2(31)) by (nonlinear_arith)
        requires
            magnitude(bits) < pow2(31) * pow2(1044),
            pow2(1044) > 0,
    ;
}

/// Derives the weight pair from a probability given as binary64 bits.
///
/// Succeeds exactly on the patterns of numbers strictly between 0 and 1;
/// zero, one, negative numbers, larger numbers, infinities and NaNs are
/// rejected.
pub fn weights_from_bits(bits: u64) -> (r: Result<WeightPair, InvalidProbability>)
    ensures
        is_probability(bits) ==> r == Ok::<WeightPair, InvalidProbability>(weights_of(bits)),
        !is_probability(bits) ==> r == Err::<WeightPair, InvalidProbability>(
            InvalidProbability { bits },
        ),
        r is Ok <==> 0 < bits < ONE_BITS,
        r matches Ok(w) ==> w.wf(),
{
    proof {
        lemma_probability_patterns(bits);
    }
    if bits == 0 || bits >= ONE_BITS {
        return Err(InvalidProbability { bits });
    }
    let exponent: u64 = bits / 0x10_0000_0000_0000;
    let fraction: u64 = bits % 0x10_0000_0000_0000;
    proof {
        lemma_fields(bits);
        lemma_scaled(bits);
    }
    let scaled: u64 = if exponent < 992 {
        0
    } else {
        let whole: u64 = 0x10_0000_0000_0000 + fraction;
        let shift: u64 = 1044 - exponent;
        proof {
            lemma_u64_shr_is_div(whole, shift);
        }
        whole >> shift
    };
    let present: u32 = if scaled < 1 {
        1
    } else if scaled > (WEIGHT_BASE - 1) as u64 {
        WEIGHT_BASE - 1
    } else {
        scaled as u32
    };
    Ok(WeightPair { absent: WEIGHT_BASE - present, present })
}

/// Among probabilities, the patterns are ordered as the numbers are.
pub proof fn magnitude_grows_with_pattern(low: u64, high: u64)
    requires
        is_probability(low),
        is_probability(high),
        low <= high,
    ensures
        magnitude(low) <= magnitude(high),
{
    lemma_fields(low);
    lemma_fields(high);
    lemma_probability_patterns(low);
    lemma_probability_patterns(high);
    let k = scale(high);
    lemma_pow2_pos(k);
    if scale(low) == k {
        lemma_mul_inequality(significand(low) as int, significand(high) as int, pow2(k) as int);
    } else {
        assert(scale(low) < k);
        lemma_magnitude_below(low, (k - 1) as nat);
        lemma_magnitude_at_least(high);
    }
}

/// A larger probability never gets a smaller share: the weight of the
/// present branch does not fall, and that of the absent branch does not
/// rise, as the number grows.
pub proof fn weights_monotonic(low: u64, high: u64)
    requires
        is_probability(low),
        is_probability(high),
        magnitude(low) <= magnitude(high),
    ensures
        weight_of_present(low) <= weight_of_present(high),
        weight_of_absent(low) >= weight_of_absent(high),
{
    lemma_pow2_pos(1044);
    lemma_div_is_ordered(magnitude(low) as int, magnitude(high) as int, pow2(1044) as int);
}

/// The weight of the present branch brackets the probability: as a share of
/// `WEIGHT_BASE` it is at most the probability (unless it was raised to 1),
/// and the next larger weight would exceed it.
pub proof fn weights_bracket_probability(bits: u64)
    requires
        is_probability(bits),
    ensures
        weight_of_present(bits) == 1 || weight_of_present(bits) * pow2(1044) <= magnitude(bits),
        magnitude(bits) < (weight_of_present(bits) + 1) * pow2(1044),
{
    lemma_probability_patterns(bits);
    lemma_scaled(bits);
    lemma_pow2_pos(1044);
    let m = magnitude(bits) as int;
    let d = pow2(1044) as int;
    let q = m / d;
    let w = weight_of_present(bits) as int;
    lemma_fundamental_div_mod(m, d);
    lemma_mod_bound(m, d);
    assert(d * q == q * d) by (nonlinear_arith);
    assert(q >= 0) by (nonlinear_arith)
        requires
            m >= 0,
            d > 0,
            q == m / d,
    ;
    assert((w + 1) * d == w * d + d) by (nonlinear_arith);
    if q < 1 {
        assert(w * d == d) by (nonlinear_arith)
            requires
                w == 1,
        ;
        assert(d * q == 0) by (nonlinear_arith)
            requires
                q == 0,
        ;
    }
    assert(weight_of_present(bits) * pow2(1044) == w * d);
    assert((weight_of_present(bits) + 1) * pow2(1044) == (w + 1) * d);
}

/// One half gets two equal weights.
pub proof fn weights_of_half()
    ensures
        is_probability(HALF_BITS),
        weights_of(HALF_BITS) == (WeightPair { absent: 0x4000_0000, present: 0x4000_0000 }),
{
    lemma_probability_patterns(HALF_BITS);
    lemma_scaled(HALF_BITS);
    lemma2_to64();
    lemma2_to64_rest();
    assert(exponent_field(HALF_BITS) == 1022);
    assert(significand(HALF_BITS) == 0x10_0000_0000_0000);
    assert(pow2(22) == 0x40_0000);
    assert(magnitude(HALF_BITS) / pow2(1044) == significand(HALF_BITS) / pow2(22));
    assert(0x10_0000_0000_0000nat / 0x40_0000nat == 0x4000_0000nat);
    assert(weight_of_present(HALF_BITS) == 0x4000_0000);
    assert(weight_of_absent(HALF_BITS) == 0x4000_0000);
}

/// The present branch is selected on as many points as its weight says: of
/// the `WEIGHT_BASE` points, those from `absent` on, and there are `present`
/// of them.
pub proof fn present_share(weights: WeightPair)
    requires
        weights.wf(),
    ensures
        forall|draw: u32|
            weights.selects_present(draw) <==> set_int_range(
                weights.absent as int,
                WEIGHT_BASE as int,
            ).contains(#[trigger] WeightPair::point_of(draw)),
        set_int_range(weights.absent as int, WEIGHT_BASE as int).len() == weights.present,
{
    lemma_int_range(weights.absent as int, WEIGHT_BASE as int);
}

} // verus!
