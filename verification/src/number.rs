//! Numbers as JSON holds them, compared as IEEE 754 doubles.
//!
//! A double is kept as its bit pattern. The patterns of two doubles are ordered by sign and
//! magnitude exactly as the doubles are, so every comparison is one of integers.
use vstd::arithmetic::power2::pow2;
use vstd::prelude::*;

verus! {

/// A JSON number: an integer, or the bit pattern of a double.
#[derive(Clone, Copy, Debug, PartialEq, Eq, Structural)]
pub enum JsonNumber {
    /// An integer that is not negative.
    PosInt(u64),
    /// A negative integer.
    NegInt(i64),
    /// The bit pattern of a double.
    Float(u64),
}

/// The weight of the lowest exponent bit of a double: two to the power of 52.
pub const MANTISSA_SPAN: u64 = 0x10_0000_0000_0000;

/// The sign bit of a double.
pub const SIGN_BIT: u64 = 0x8000_0000_0000_0000;

/// The magnitude bits of an infinite double. Those of a number that is none are above.
pub const INFINITE_MAGNITUDE: u64 = 0x7ff0_0000_0000_0000;

/// How two numbers may be asked to compare.
#[derive(Clone, Copy, Debug, PartialEq, Eq, Structural)]
pub enum NumericRelation {
    Greater,
    GreaterOrEqual,
    Less,
    LessOrEqual,
}

/// The exponent of the highest power of two that is at most `n`.
pub open spec fn top_bit(n: nat) -> nat
    decreases n,
{
    if n < 2 {
        0
    } else {
        1 + top_bit(n / 2)
    }
}

/// The multiple of `unit` nearest to `n`, counted in units; of two equally near, the even one.
pub open spec fn nearest_multiple(n: nat, unit: nat) -> nat {
    let below = n / unit;
    let rest = n % unit;
    if 2 * rest > unit || (2 * rest == unit && below % 2 == 1) {
        below + 1
    } else {
        below
    }
}

/// The mantissa of `n`, with its leading bit: `n` scaled so that its top bit is bit 52.
pub open spec fn scaled_mantissa(n: nat) -> nat {
    let e = top_bit(n);
    if e <= 52 {
        n * pow2((52 - e) as nat)
    } else {
        nearest_multiple(n, pow2((e - 52) as nat))
    }
}

/// The bit pattern of the double nearest to a whole number.
pub open spec fn double_of_nat(n: nat) -> nat {
    if n == 0 {
        0
    } else {
        ((1022 + top_bit(n)) * MANTISSA_SPAN + scaled_mantissa(n)) as nat
    }
}

/// The bit pattern of the double nearest to an integer.
pub open spec fn double_of_int(n: int) -> nat {
    if n >= 0 {
        double_of_nat(n as nat)
    } else {
        (SIGN_BIT + double_of_nat((-n) as nat)) as nat
    }
}

/// The bit pattern of a JSON number taken as a double.
pub open spec fn double_of(n: JsonNumber) -> nat {
    match n {
        JsonNumber::PosInt(i) => double_of_int(i as int),
        JsonNumber::NegInt(i) => double_of_int(i as int),
        JsonNumber::Float(bits) => bits as nat,
    }
}

/// The magnitude bits of a pattern.
pub open spec fn magnitude(bits: nat) -> nat {
    if bits >= SIGN_BIT {
        (bits - SIGN_BIT) as nat
    } else {
        bits
    }
}

/// The pattern is that of no number.
pub open spec fn is_nan(bits: nat) -> bool {
    magnitude(bits) > INFINITE_MAGNITUDE
}

/// The pattern is that of a number that is not infinite.
pub open spec fn is_finite(bits: nat) -> bool {
    magnitude(bits) < INFINITE_MAGNITUDE
}

/// The place of a pattern in the order of the doubles. The two zeros share one place.
pub open spec fn rank(bits: nat) -> int {
    if bits >= SIGN_BIT {
        -(magnitude(bits) as int)
    } else {
        magnitude(bits) as int
    }
}

/// The doubles stand in the relation. A pattern that is no number stands in none.
pub open spec fn related(a: nat, relation: NumericRelation, b: nat) -> bool {
    &&& !is_nan(a)
    &&& !is_nan(b)
    &&& match relation {
        NumericRelation::Greater => rank(a) > rank(b),
        NumericRelation::GreaterOrEqual => rank(a) >= rank(b),
        NumericRelation::Less => rank(a) < rank(b),
        NumericRelation::LessOrEqual => rank(a) <= rank(b),
    }
}

/// JSON takes the two numbers for the same: equal integers of one kind, or equal doubles.
pub open spec fn same_number(a: JsonNumber, b: JsonNumber) -> bool {
    match (a, b) {
        (JsonNumber::PosInt(x), JsonNumber::PosInt(y)) => x == y,
        (JsonNumber::NegInt(x), JsonNumber::NegInt(y)) => x == y,
        (JsonNumber::Float(x), JsonNumber::Float(y)) => !is_nan(x as nat) && !is_nan(y as nat)
            && rank(x as nat) == rank(y as nat),
        _ => false,
    }
}

/// A number lies between two to the power of its top bit and twice that.
pub proof fn top_bit_bounds(n: nat)
    requires
        n > 0,
    ensures
        pow2(top_bit(n)) <= n < 2 * pow2(top_bit(n)),
    decreases n,
{
    vstd::arithmetic::power2::lemma2_to64();
    if n >= 2 {
        top_bit_bounds(n / 2);
        vstd::arithmetic::power2::lemma_pow2_unfold(top_bit(n));
    }
}

proof fn top_bit_grows(m: nat, n: nat)
    requires
        m <= n,
    ensures
        top_bit(m) <= top_bit(n),
    decreases n,
{
    if m >= 2 {
        top_bit_grows(m / 2, n / 2);
    }
}

proof fn pow2_split(a: nat, b: nat)
    ensures
        pow2(a) * pow2(b) == pow2(a + b),
        pow2(a) > 0,
        pow2(b) > 0,
{
    vstd::arithmetic::power2::lemma_pow2_adds(a, b);
    vstd::arithmetic::power2::lemma_pow2_pos(a);
    vstd::arithmetic::power2::lemma_pow2_pos(b);
}

/// The mantissa of a number has its leading bit, and at most reaches the next one.
pub proof fn mantissa_bounds(n: nat)
    requires
        n > 0,
    ensures
        MANTISSA_SPAN <= scaled_mantissa(n) <= 2 * MANTISSA_SPAN,
        top_bit(n) <= 52 ==> scaled_mantissa(n) < 2 * MANTISSA_SPAN,
{
    vstd::arithmetic::power2::lemma2_to64();
    let e = top_bit(n);
    top_bit_bounds(n);
    assert(pow2(52) == MANTISSA_SPAN) by {
        vstd::arithmetic::power2::lemma2_to64_rest();
    }
    if e <= 52 {
        let p = pow2((52 - e) as nat);
        pow2_split(e, (52 - e) as nat);
        assert(pow2(e) * p <= n * p && n * p < (2 * pow2(e)) * p) by (nonlinear_arith)
            requires
                pow2(e) <= n,
                n < 2 * pow2(e),
                p > 0,
        ;
        assert((2 * pow2(e)) * p == 2 * (pow2(e) * p)) by (nonlinear_arith);
    } else {
        let unit = pow2((e - 52) as nat);
        pow2_split(52, (e - 52) as nat);
        let q = n / unit;
        assert(q * unit + n % unit == n && n % unit < unit) by {
            vstd::arithmetic::div_mod::lemma_fundamental_div_mod(n as int, unit as int);
            vstd::arithmetic::mul::lemma_mul_is_commutative(unit as int, q as int);
        }
        assert(q >= pow2(52)) by (nonlinear_arith)
            requires
                pow2(52) * unit <= n,
                n < q * unit + unit,
                unit > 0,
        ;
        assert(q < 2 * pow2(52)) by (nonlinear_arith)
            requires
                q * unit <= n,
                n < 2 * (pow2(52) * unit),
                unit > 0,
        ;
    }
}

/// The bit pattern of a whole number taken as a double.
pub fn double_of_u64(n: u64) -> (bits: u64)
    ensures
        bits == double_of_nat(n as nat),
        bits < INFINITE_MAGNITUDE,
{
    if n == 0 {
        return 0;
    }
    proof {
        vstd::arithmetic::power2::lemma2_to64();
        vstd::arithmetic::power2::lemma2_to64_rest();
        top_bit_bounds(n as nat);
        mantissa_bounds(n as nat);
    }
    let e = top_bit_of(n);
    let mantissa: u64 = if e <= 52 {
        let unit = power_of_two(52 - e);
        proof {
            assert(scaled_mantissa(n as nat) == n * unit);
        }
        n * unit
    } else {
        let unit = power_of_two(e - 52);
        proof {
            assert(unit <= 2048) by {
                if e - 52 < 11 {
                    vstd::arithmetic::power2::lemma_pow2_strictly_increases((e - 52) as nat, 11);
                }
            }
            vstd::arithmetic::power2::lemma_pow2_pos((e - 52) as nat);
        }
        let below = n / unit;
        let rest = n % unit;
        if 2 * rest > unit || (2 * rest == unit && below % 2 == 1) {
            below + 1
        } else {
            below
        }
    };
    (1022 + e) * MANTISSA_SPAN + mantissa
}

/// The top bit of a number that is not zero.
fn top_bit_of(n: u64) -> (e: u64)
    requires
        n > 0,
    ensures
        e == top_bit(n as nat),
        e <= 63,
    decreases n,
{
    if n < 2 {
        0
    } else {
        let e = top_bit_of(n / 2);
        proof {
            vstd::arithmetic::power2::lemma2_to64_rest();
            top_bit_bounds(n as nat);
            if e + 1 > 64 {
                vstd::arithmetic::power2::lemma_pow2_strictly_increases(64, (e + 1) as nat);
            }
        }
        e + 1
    }
}

/// Two to the power of `k`.
fn power_of_two(k: u64) -> (r: u64)
    requires
        k <= 63,
    ensures
        r == pow2(k as nat),
{
    let mut r: u64 = 1;
    let mut i: u64 = 0;
    proof {
        vstd::arithmetic::power2::lemma2_to64();
        vstd::arithmetic::power2::lemma2_to64_rest();
    }
    while i < k
        invariant
            i <= k <= 63,
            r == pow2(i as nat),
            pow2(63) == 0x8000_0000_0000_0000,
        decreases k - i,
    {
        proof {
            vstd::arithmetic::power2::lemma_pow2_unfold((i + 1) as nat);
            if i + 1 < 63 {
                vstd::arithmetic::power2::lemma_pow2_strictly_increases((i + 1) as nat, 63);
            }
        }
        r = r * 2;
        i += 1;
    }
    r
}

impl JsonNumber {
    /// The bit pattern of the number taken as a double.
    pub fn as_double(&self) -> (bits: u64)
        ensures
            bits == double_of(*self),
    {
        match self {
            JsonNumber::PosInt(i) => double_of_u64(*i),
            JsonNumber::NegInt(i) => double_of_i64(*i),
            JsonNumber::Float(bits) => *bits,
        }
    }

    /// Whether JSON takes the two numbers for the same.
    pub fn same(&self, other: &JsonNumber) -> (r: bool)
        ensures
            r == same_number(*self, *other),
    {
        match (self, other) {
            (JsonNumber::PosInt(x), JsonNumber::PosInt(y)) => *x == *y,
            (JsonNumber::NegInt(x), JsonNumber::NegInt(y)) => *x == *y,
            (JsonNumber::Float(x), JsonNumber::Float(y)) => double_related(
                *x,
                NumericRelation::GreaterOrEqual,
                *y,
            ) && double_related(*x, NumericRelation::LessOrEqual, *y),
            _ => false,
        }
    }
}

/// The bit pattern of an integer taken as a double.
pub fn double_of_i64(n: i64) -> (bits: u64)
    ensures
        bits == double_of_int(n as int),
        is_finite(bits as nat),
{
    if n >= 0 {
        double_of_u64(n as u64)
    } else {
        let size: u64 = (-(n + 1)) as u64 + 1;
        SIGN_BIT + double_of_u64(size)
    }
}

/// The magnitude bits of a pattern.
fn magnitude_of(bits: u64) -> (r: u64)
    ensures
        r == magnitude(bits as nat),
        r < SIGN_BIT,
{
    if bits >= SIGN_BIT {
        bits - SIGN_BIT
    } else {
        bits
    }
}

/// Whether a pattern is that of a number that is not infinite.
pub fn double_is_finite(bits: u64) -> (r: bool)
    ensures
        r == is_finite(bits as nat),
{
    magnitude_of(bits) < INFINITE_MAGNITUDE
}

/// Whether two doubles stand in a relation.
pub fn double_related(a: u64, relation: NumericRelation, b: u64) -> (r: bool)
    ensures
        r == related(a as nat, relation, b as nat),
{
    let (x, y) = (magnitude_of(a), magnitude_of(b));
    if x > INFINITE_MAGNITUDE || y > INFINITE_MAGNITUDE {
        return false;
    }
    let p: i64 = if a >= SIGN_BIT {
        -(x as i64)
    } else {
        x as i64
    };
    let q: i64 = if b >= SIGN_BIT {
        -(y as i64)
    } else {
        y as i64
    };
    match relation {
        NumericRelation::Greater => p > q,
        NumericRelation::GreaterOrEqual => p >= q,
        NumericRelation::Less => p < q,
        NumericRelation::LessOrEqual => p <= q,
    }
}

/// The pattern of a number taken as a double has 64 bits.
pub proof fn doubles_fit(n: JsonNumber)
    ensures
        double_of(n) <= u64::MAX,
{
    match n {
        JsonNumber::PosInt(i) => {
            double_of_u64_is_small(i);
        },
        JsonNumber::NegInt(i) => {
            let size: nat = if i >= 0 {
                i as nat
            } else {
                (-i) as nat
            };
            double_of_u64_is_small(size as u64);
        },
        JsonNumber::Float(_) => {},
    }
}

proof fn double_of_u64_is_small(n: u64)
    ensures
        double_of_nat(n as nat) < INFINITE_MAGNITUDE,
{
    if n > 0 {
        vstd::arithmetic::power2::lemma2_to64();
        vstd::arithmetic::power2::lemma2_to64_rest();
        top_bit_bounds(n as nat);
        mantissa_bounds(n as nat);
        let e = top_bit(n as nat);
        if e > 63 {
            if e > 64 {
                vstd::arithmetic::power2::lemma_pow2_strictly_increases(64, e);
            }
            assert(pow2(64) <= n);
        }
        assert((1022 + e) * MANTISSA_SPAN <= 1085 * MANTISSA_SPAN) by (nonlinear_arith)
            requires
                e <= 63,
                MANTISSA_SPAN > 0,
        ;
    }
}

/// A whole number up to two to the power of 53 is a double itself: its mantissa, with the weight
/// that its exponent gives, is the number.
pub proof fn small_integers_are_exact(n: nat)
    requires
        0 < n <= 2 * MANTISSA_SPAN,
    ensures
        scaled_mantissa(n) * pow2(top_bit(n)) == n * MANTISSA_SPAN,
{
    vstd::arithmetic::power2::lemma2_to64();
    vstd::arithmetic::power2::lemma2_to64_rest();
    let e = top_bit(n);
    top_bit_bounds(n);
    if e <= 52 {
        pow2_split((52 - e) as nat, e);
        assert((n * pow2((52 - e) as nat)) * pow2(e) == n * (pow2((52 - e) as nat) * pow2(e)))
            by (nonlinear_arith);
    } else {
        if e > 53 {
            vstd::arithmetic::power2::lemma_pow2_strictly_increases(53, e);
        }
        assert(e == 53);
        assert(n == 2 * MANTISSA_SPAN);
        assert(scaled_mantissa(n) == MANTISSA_SPAN);
    }
}

/// Taking whole numbers as doubles keeps their order.
pub proof fn doubles_keep_the_order(m: nat, n: nat)
    requires
        m <= n,
    ensures
        double_of_nat(m) <= double_of_nat(n),
{
    if m > 0 {
        top_bit_grows(m, n);
        mantissa_bounds(m);
        mantissa_bounds(n);
        let e = top_bit(m);
        if e == top_bit(n) {
            if e <= 52 {
                let p = pow2((52 - e) as nat);
                assert(m * p <= n * p) by (nonlinear_arith)
                    requires
                        m <= n,
                ;
            } else {
                let unit = pow2((e - 52) as nat);
                vstd::arithmetic::power2::lemma_pow2_pos((e - 52) as nat);
                vstd::arithmetic::div_mod::lemma_fundamental_div_mod(m as int, unit as int);
                vstd::arithmetic::div_mod::lemma_fundamental_div_mod(n as int, unit as int);
                vstd::arithmetic::div_mod::lemma_div_is_ordered(m as int, n as int, unit as int);
                let (qm, qn) = (m / unit, n / unit);
                if qm == qn {
                    assert(m % unit <= n % unit);
                }
            }
        } else {
            let f = top_bit(n);
            assert(e + 1 <= f);
            assert((1022 + e) * MANTISSA_SPAN + 2 * MANTISSA_SPAN <= (1022 + f) * MANTISSA_SPAN
                + MANTISSA_SPAN) by (nonlinear_arith)
                requires
                    e + 1 <= f,
                    MANTISSA_SPAN > 0,
            ;
        }
    }
}

/// Taking whole numbers up to two to the power of 53 as doubles keeps apart what differs.
proof fn small_doubles_differ(m: nat, n: nat)
    requires
        m < n <= 2 * MANTISSA_SPAN,
    ensures
        double_of_nat(m) < double_of_nat(n),
{
    vstd::arithmetic::power2::lemma2_to64();
    vstd::arithmetic::power2::lemma2_to64_rest();
    mantissa_bounds(n);
    top_bit_bounds(n);
    let f = top_bit(n);
    if m > 0 {
        top_bit_grows(m, n);
        mantissa_bounds(m);
        top_bit_bounds(m);
        let e = top_bit(m);
        if e > 52 {
            if e > 53 {
                vstd::arithmetic::power2::lemma_pow2_strictly_increases(53, e);
            }
            assert(m >= 2 * MANTISSA_SPAN);
        }
        if e == f {
            let p = pow2((52 - e) as nat);
            vstd::arithmetic::power2::lemma_pow2_pos((52 - e) as nat);
            assert(m * p < n * p) by (nonlinear_arith)
                requires
                    m < n,
                    p > 0,
            ;
        } else {
            assert((1022 + e) * MANTISSA_SPAN + 2 * MANTISSA_SPAN <= (1022 + f) * MANTISSA_SPAN
                + MANTISSA_SPAN) by (nonlinear_arith)
                requires
                    e + 1 <= f,
                    MANTISSA_SPAN > 0,
            ;
        }
    } else {
        assert((1022 + f) * MANTISSA_SPAN >= 0) by (nonlinear_arith)
            requires
                MANTISSA_SPAN > 0,
        ;
    }
}

/// An integer of at most two to the power of 53 is a finite double.
pub proof fn small_integers_are_finite(n: int)
    requires
        -2 * MANTISSA_SPAN <= n <= 2 * MANTISSA_SPAN,
    ensures
        is_finite(double_of_int(n)),
        n >= 0 ==> rank(double_of_int(n)) == double_of_nat(n as nat),
        n < 0 ==> rank(double_of_int(n)) == -double_of_nat((-n) as nat),
{
    if n >= 0 {
        double_of_u64_is_small(n as u64);
    } else {
        double_of_u64_is_small((-n) as u64);
    }
}

/// Of two integers of at most two to the power of 53, the smaller one comes first as a double too.
pub proof fn integers_keep_their_order(m: int, n: int)
    requires
        -2 * MANTISSA_SPAN <= m < n <= 2 * MANTISSA_SPAN,
    ensures
        rank(double_of_int(m)) < rank(double_of_int(n)),
{
    small_integers_are_finite(m);
    small_integers_are_finite(n);
    if m >= 0 {
        small_doubles_differ(m as nat, n as nat);
    } else if n >= 0 {
        small_doubles_differ(0, (-m) as nat);
    } else {
        small_doubles_differ((-n) as nat, (-m) as nat);
    }
}

} // verus!
