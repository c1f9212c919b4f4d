//! Comparing numbers by their bit patterns is comparing the numbers.
use vstd::arithmetic::power2::{lemma_pow2_adds, lemma_pow2_pos, pow2};
use vstd::prelude::*;

use crate::number::{
    double_of, double_of_nat, integers_keep_their_order, is_finite, mantissa_bounds, related,
    scaled_mantissa, small_integers_are_exact, small_integers_are_finite, top_bit, JsonNumber,
    NumericRelation, MANTISSA_SPAN,
};
use crate::ranking::{is_below, reaches, Score};

verus! {

/// What the magnitude bits of a finite number stand for, in units of the smallest number that there
/// is, where the fraction has `span` values. Without an exponent the fraction is all; an exponent
/// adds a leading bit, and each step of it doubles the number.
pub open spec fn size_of_bits(magnitude: nat, span: nat) -> nat {
    let exponent = magnitude / span;
    let fraction = magnitude % span;
    if exponent == 0 {
        fraction
    } else {
        (span + fraction) * pow2((exponent - 1) as nat)
    }
}

/// What the bits of a finite number stand for, in units of the smallest number that there is. The
/// bits are a sign, and below it a magnitude.
pub open spec fn value_of_bits(bits: nat, sign: nat, span: nat) -> int {
    if bits >= sign {
        -(size_of_bits((bits - sign) as nat, span) as int)
    } else {
        size_of_bits(bits, span) as int
    }
}

/// What a finite double stands for, in units of the smallest double.
pub open spec fn double_value(bits: u64) -> int {
    value_of_bits(bits as nat, 0x8000_0000_0000_0000, 0x10_0000_0000_0000)
}

/// What a finite single stands for, in units of the smallest single.
pub open spec fn single_value(bits: u32) -> int {
    value_of_bits(bits as nat, 0x8000_0000, 0x80_0000)
}

/// More magnitude bits stand for more.
proof fn sizes_grow(a: nat, b: nat, span: nat)
    requires
        a < b,
        span > 0,
    ensures
        size_of_bits(a, span) < size_of_bits(b, span),
{
    let (e, f) = (a / span, b / span);
    let (x, y) = (a % span, b % span);
    vstd::arithmetic::div_mod::lemma_fundamental_div_mod(a as int, span as int);
    vstd::arithmetic::div_mod::lemma_fundamental_div_mod(b as int, span as int);
    vstd::arithmetic::div_mod::lemma_div_is_ordered(a as int, b as int, span as int);
    if e == f {
        assert(x < y);
        if e > 0 {
            let p = pow2((e - 1) as nat);
            lemma_pow2_pos((e - 1) as nat);
            assert((span + x) * p < (span + y) * p) by (nonlinear_arith)
                requires
                    x < y,
                    p > 0,
            ;
        }
    } else {
        let q = pow2((f - 1) as nat);
        lemma_pow2_pos((f - 1) as nat);
        assert(span * q <= (span + y) * q) by (nonlinear_arith);
        if e == 0 {
            assert(span <= span * q) by (nonlinear_arith)
                requires
                    q > 0,
            ;
        } else {
            let p = pow2((e - 1) as nat);
            lemma_pow2_pos((e - 1) as nat);
            let d = (f - 1 - e) as nat;
            lemma_pow2_adds(e as nat, d);
            lemma_pow2_adds((e - 1) as nat, 1);
            lemma_pow2_pos(d);
            vstd::arithmetic::power2::lemma2_to64();
            assert(pow2(e as nat) == p * 2);
            assert(q == pow2(e as nat) * pow2(d));
            assert((span + x) * p < span * (p * 2)) by (nonlinear_arith)
                requires
                    x < span,
                    p > 0,
            ;
            assert(span * (p * 2) <= span * ((p * 2) * pow2(d))) by (nonlinear_arith)
                requires
                    pow2(d) > 0,
                    p > 0,
            ;
        }
    }
}

/// Of two finite numbers, the bits tell which is greater as their sign and magnitude do.
proof fn values_are_ordered_by_bits(a: nat, b: nat, sign: nat, span: nat)
    requires
        span > 0,
    ensures
        ({
            let x = if a >= sign {
                -((a - sign) as int)
            } else {
                a as int
            };
            let y = if b >= sign {
                -((b - sign) as int)
            } else {
                b as int
            };
            value_of_bits(a, sign, span) < value_of_bits(b, sign, span) <==> x < y
        }),
{
    let m = if a >= sign {
        (a - sign) as nat
    } else {
        a
    };
    let n = if b >= sign {
        (b - sign) as nat
    } else {
        b
    };
    assert(size_of_bits(0, span) == 0) by {
        vstd::arithmetic::div_mod::lemma_div_of0(span as int);
        vstd::arithmetic::div_mod::lemma_fundamental_div_mod(0, span as int);
    }
    if m > 0 {
        sizes_grow(0, m, span);
    }
    if n > 0 {
        sizes_grow(0, n, span);
    }
    if m < n {
        sizes_grow(m, n, span);
    }
    if n < m {
        sizes_grow(n, m, span);
    }
}

/// Of two finite doubles, one stands in a relation to the other exactly if the numbers do that they
/// stand for.
pub proof fn doubles_compare_as_numbers(a: u64, b: u64)
    requires
        is_finite(a as nat),
        is_finite(b as nat),
    ensures
        related(a as nat, NumericRelation::Greater, b as nat) <==> double_value(a)
            > double_value(b),
        related(a as nat, NumericRelation::GreaterOrEqual, b as nat) <==> double_value(a)
            >= double_value(b),
        related(a as nat, NumericRelation::Less, b as nat) <==> double_value(a) < double_value(b),
        related(a as nat, NumericRelation::LessOrEqual, b as nat) <==> double_value(a)
            <= double_value(b),
{
    values_are_ordered_by_bits(a as nat, b as nat, 0x8000_0000_0000_0000, 0x10_0000_0000_0000);
    values_are_ordered_by_bits(b as nat, a as nat, 0x8000_0000_0000_0000, 0x10_0000_0000_0000);
}

/// The single is a number, and not an infinite one: its exponent has not all bits set.
pub open spec fn is_plain(score: Score) -> bool {
    (score.bits as int) % 0x8000_0000 < 0x7f80_0000
}

/// A score reaches another exactly if the number that it stands for is at least as large, and is
/// below it otherwise.
pub proof fn scores_compare_as_numbers(a: Score, b: Score)
    requires
        is_plain(a),
        is_plain(b),
    ensures
        reaches(a, b) <==> single_value(a.bits) >= single_value(b.bits),
        is_below(a, b) <==> single_value(a.bits) < single_value(b.bits),
{
    values_are_ordered_by_bits(a.bits as nat, b.bits as nat, 0x8000_0000, 0x80_0000);
    values_are_ordered_by_bits(b.bits as nat, a.bits as nat, 0x8000_0000, 0x80_0000);
}

/// A score that is no number reaches nothing, and nothing reaches it.
pub proof fn no_number_reaches_nothing(a: Score, b: Score)
    requires
        (a.bits as int) % 0x8000_0000 > 0x7f80_0000,
    ensures
        !reaches(a, b),
        !reaches(b, a),
        !is_below(a, b),
        !is_below(b, a),
{
}

/// The whole number that a JSON number is, if it is one.
pub open spec fn whole(n: JsonNumber) -> Option<int> {
    match n {
        JsonNumber::PosInt(i) => Some(i as int),
        JsonNumber::NegInt(i) => Some(i as int),
        JsonNumber::Float(_) => None,
    }
}

/// The whole number is one of those that doubles tell apart: at most two to the power of 53.
pub open spec fn is_small(n: int) -> bool {
    -0x20_0000_0000_0000 <= n <= 0x20_0000_0000_0000
}

/// Small whole numbers stand in a relation as doubles exactly if they do as numbers.
pub proof fn whole_numbers_compare_as_numbers(a: JsonNumber, b: JsonNumber)
    requires
        whole(a) matches Some(x) && is_small(x),
        whole(b) matches Some(y) && is_small(y),
    ensures
        related(double_of(a), NumericRelation::Greater, double_of(b)) <==> whole(a)->0
            > whole(b)->0,
        related(double_of(a), NumericRelation::GreaterOrEqual, double_of(b)) <==> whole(a)->0
            >= whole(b)->0,
        related(double_of(a), NumericRelation::Less, double_of(b)) <==> whole(a)->0 < whole(b)->0,
        related(double_of(a), NumericRelation::LessOrEqual, double_of(b)) <==> whole(a)->0
            <= whole(b)->0,
{
    let (x, y) = (whole(a)->0, whole(b)->0);
    small_integers_are_finite(x);
    small_integers_are_finite(y);
    if x < y {
        integers_keep_their_order(x, y);
    }
    if y < x {
        integers_keep_their_order(y, x);
    }
}

/// A small whole number taken as a double stands for itself.
pub proof fn small_doubles_stand_for_themselves(n: nat)
    requires
        n <= 0x20_0000_0000_0000,
    ensures
        size_of_bits(double_of_nat(n), 0x10_0000_0000_0000) == n * pow2(1074),
{
    let span: nat = 0x10_0000_0000_0000;
    if n == 0 {
        vstd::arithmetic::div_mod::lemma_div_of0(span as int);
    } else {
        vstd::arithmetic::power2::lemma2_to64_rest();
        small_integers_are_exact(n);
        mantissa_bounds(n);
        let (e, m) = (top_bit(n), scaled_mantissa(n));
        let bits = double_of_nat(n);
        if e <= 52 {
            assert(m < 2 * span);
        } else {
            crate::number::top_bit_bounds(n);
            if e > 53 {
                vstd::arithmetic::power2::lemma_pow2_strictly_increases(53, e);
            }
            assert(n == 2 * span);
            assert(m == span) by (nonlinear_arith)
                requires
                    m * pow2(e) == n * span,
                    n == 2 * span,
                    pow2(e) == 2 * span,
                    span > 0,
            ;
        }
        assert(bits == (1023 + e) * span + (m - span)) by (nonlinear_arith)
            requires
                bits == (1022 + e) * span + m,
        ;
        vstd::arithmetic::div_mod::lemma_fundamental_div_mod_converse(
            bits as int,
            span as int,
            (1023 + e) as int,
            m - span,
        );
        lemma_pow2_adds(e, 1022);
        lemma_pow2_adds(52, 1022);
        assert(m * (pow2(e) * pow2(1022)) == (m * pow2(e)) * pow2(1022)) by (nonlinear_arith);
        assert((n * span) * pow2(1022) == n * (span * pow2(1022))) by (nonlinear_arith);
    }
}

} // verus!
