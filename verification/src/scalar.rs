//! Single-precision numbers as bit patterns.
//!
//! A `Scalar` is an IEEE-754 binary32 value held as its 32 bits. Everything here
//! reads those bits as integers: the sign, the eight exponent bits and the
//! twenty-three fraction bits. The view of a scalar is the exact number it
//! stands for, and every comparison is stated over that number.
//!
//! Arithmetic on scalars is not part of this module; callers compute with the
//! hardware and hand the results over as bits.

use vstd::prelude::*;
use vstd::arithmetic::power2::{pow2, lemma_pow2_pos, lemma_pow2_unfold, lemma_pow2_strictly_increases};

verus! {

/// The sign bit of a pattern.
pub const SIGN_BIT: u32 = 0x8000_0000;

/// The pattern of positive infinity; every larger magnitude is a NaN.
pub const INFINITY_BITS: u32 = 0x7f80_0000;

/// Two to the twenty-third: one more than the largest fraction field.
pub const FRACTION_SPAN: u32 = 0x0080_0000;

/// The pattern of `0.0`.
pub const ZERO_BITS: u32 = 0x0000_0000;

/// The pattern of `1.0`.
pub const ONE_BITS: u32 = 0x3f80_0000;

/// The pattern of the largest finite value.
pub const LARGEST_BITS: u32 = 0x7f7f_ffff;

/// What a bit pattern stands for.
///
/// A finite value is given exactly, as an integer count of the smallest
/// positive step `2^-149`: every finite binary32 value is such a multiple.
pub enum Value {
    /// Not a number.
    Nan,
    /// Positive or negative infinity.
    Infinite { negative: bool },
    /// The number `scaled * 2^-149`.
    Finite { scaled: int },
}

impl Value {
    /// Strictly less, on the extended number line. False when either side is
    /// not a number.
    pub open spec fn lt(self, other: Value) -> bool {
        match (self, other) {
            (Value::Nan, _) => false,
            (_, Value::Nan) => false,
            (Value::Infinite { negative: a }, Value::Infinite { negative: b }) => a && !b,
            (Value::Infinite { negative }, Value::Finite { .. }) => negative,
            (Value::Finite { .. }, Value::Infinite { negative }) => !negative,
            (Value::Finite { scaled: a }, Value::Finite { scaled: b }) => a < b,
        }
    }

    /// Numerically equal. False when either side is not a number; both zeros
    /// are equal.
    pub open spec fn same(self, other: Value) -> bool {
        match (self, other) {
            (Value::Infinite { negative: a }, Value::Infinite { negative: b }) => a == b,
            (Value::Finite { scaled: a }, Value::Finite { scaled: b }) => a == b,
            _ => false,
        }
    }

    /// Less than or numerically equal.
    pub open spec fn le(self, other: Value) -> bool {
        self.lt(other) || self.same(other)
    }

    /// Lies in the closed interval from `low` to `high`.
    pub open spec fn within(self, low: Value, high: Value) -> bool {
        low.le(self) && self.le(high)
    }

    /// The nearest integer, halves rounded up, held to the range of a byte:
    /// `floor(x + 1/2)`, at least 0 and at most 255. What is not a number
    /// gives 0.
    pub open spec fn nearest_byte(self) -> int {
        match self {
            Value::Nan => 0,
            Value::Infinite { negative } => if negative { 0 } else { 255 },
            Value::Finite { scaled } => {
                let rounded = (scaled + pow2(148)) / (pow2(149) as int);
                if rounded < 0 {
                    0
                } else if rounded > 255 {
                    255
                } else {
                    rounded
                }
            },
        }
    }
}

/// The count of `2^-149` steps in the non-negative finite pattern `magnitude`.
///
/// With exponent field zero the fraction counts steps directly; otherwise the
/// fraction gains its hidden leading bit and doubles once per exponent above one.
pub open spec fn steps(magnitude: int) -> int {
    let exponent = magnitude / 0x0080_0000;
    let fraction = magnitude % 0x0080_0000;
    if exponent == 0 {
        fraction
    } else {
        (0x0080_0000 + fraction) * pow2((exponent - 1) as nat)
    }
}

/// A binary32 value, as its bits.
///
/// `==` on scalars compares the bits, so it tells the two zeros apart and
/// finds a NaN equal to itself; `same` compares the values.
#[derive(Clone, Copy, Debug, PartialEq, Eq, Structural)]
pub struct Scalar {
    pub bits: u32,
}

impl View for Scalar {
    type V = Value;

    open spec fn view(&self) -> Value {
        if self.magnitude() > INFINITY_BITS {
            Value::Nan
        } else if self.magnitude() == INFINITY_BITS {
            Value::Infinite { negative: self.negative() }
        } else if self.negative() {
            Value::Finite { scaled: -steps(self.magnitude()) }
        } else {
            Value::Finite { scaled: steps(self.magnitude()) }
        }
    }
}

impl Scalar {
    /// The sign bit is set.
    pub open spec fn negative(self) -> bool {
        self.bits >= SIGN_BIT
    }

    /// The pattern without its sign bit.
    pub open spec fn magnitude(self) -> int {
        if self.bits >= SIGN_BIT {
            self.bits - SIGN_BIT
        } else {
            self.bits as int
        }
    }

    /// Where the pattern stands among all patterns that are numbers: the
    /// magnitude, negated under a set sign bit. Both zeros stand at 0.
    pub open spec fn rank(self) -> int {
        if self.negative() {
            -self.magnitude()
        } else {
            self.magnitude()
        }
    }

    /// `0.0`, with the sign bit clear.
    pub open spec fn spec_zero() -> Scalar {
        Scalar { bits: ZERO_BITS }
    }

    /// `1.0`.
    pub open spec fn spec_one() -> Scalar {
        Scalar { bits: ONE_BITS }
    }

    /// The largest finite value.
    pub open spec fn spec_largest() -> Scalar {
        Scalar { bits: LARGEST_BITS }
    }

    /// The scalar with the given bits.
    pub fn from_bits(bits: u32) -> (r: Scalar)
        ensures
            r.bits == bits,
    {
        Scalar { bits }
    }

    /// The bits of the scalar.
    pub fn to_bits(self) -> (r: u32)
        ensures
            r == self.bits,
    {
        self.bits
    }

    /// `0.0`.
    #[verifier::when_used_as_spec(spec_zero)]
    pub fn zero() -> (r: Scalar)
        ensures
            r == Scalar::spec_zero(),
            r@ == (Value::Finite { scaled: 0 }),
    {
        Scalar { bits: ZERO_BITS }
    }

    /// `1.0`.
    #[verifier::when_used_as_spec(spec_one)]
    pub fn one() -> (r: Scalar)
        ensures
            r == Scalar::spec_one(),
            r@ == (Value::Finite { scaled: pow2(149) as int }),
    {
        proof {
            lemma_one_value();
        }
        Scalar { bits: ONE_BITS }
    }

    /// The largest finite value.
    #[verifier::when_used_as_spec(spec_largest)]
    pub fn largest() -> (r: Scalar)
        ensures
            r == Scalar::spec_largest(),
            r@ == (Value::Finite { scaled: 0x00ff_ffff * (pow2(253) as int) }),
    {
        Scalar { bits: LARGEST_BITS }
    }

    fn exec_magnitude(self) -> (r: u32)
        ensures
            r == self.magnitude(),
    {
        if self.bits >= SIGN_BIT {
            self.bits - SIGN_BIT
        } else {
            self.bits
        }
    }

    fn exec_rank(self) -> (r: i64)
        ensures
            r == self.rank(),
    {
        if self.bits >= SIGN_BIT {
            -((self.bits - SIGN_BIT) as i64)
        } else {
            self.bits as i64
        }
    }

    /// Whether the scalar is not a number.
    pub fn is_nan(self) -> (r: bool)
        ensures
            r == (self@ is Nan),
    {
        self.exec_magnitude() > INFINITY_BITS
    }

    /// `self < other` as the hardware compares: false when either is not a number.
    pub fn lt(self, other: Scalar) -> (r: bool)
        ensures
            r == self@.lt(other@),
    {
        proof {
            lemma_rank_orders(self, other);
        }
        !self.is_nan() && !other.is_nan() && self.exec_rank() < other.exec_rank()
    }

    /// `self <= other` as the hardware compares.
    pub fn le(self, other: Scalar) -> (r: bool)
        ensures
            r == self@.le(other@),
    {
        proof {
            lemma_rank_orders(self, other);
        }
        !self.is_nan() && !other.is_nan() && self.exec_rank() <= other.exec_rank()
    }

    /// `self > other` as the hardware compares.
    pub fn gt(self, other: Scalar) -> (r: bool)
        ensures
            r == other@.lt(self@),
    {
        other.lt(self)
    }

    /// `self >= other` as the hardware compares.
    pub fn ge(self, other: Scalar) -> (r: bool)
        ensures
            r == other@.le(self@),
    {
        other.le(self)
    }

    /// `self == other` as the hardware compares: numbers of equal value, so the
    /// two zeros are equal and a NaN equals nothing.
    pub fn same(self, other: Scalar) -> (r: bool)
        ensures
            r == self@.same(other@),
    {
        proof {
            lemma_rank_orders(self, other);
        }
        !self.is_nan() && !other.is_nan() && self.exec_rank() == other.exec_rank()
    }

    /// The lesser of the two, passing over a NaN: if one side is not a number
    /// the other is returned. Of two equal numbers (the two zeros) it is `self`.
    pub open spec fn spec_min(self, other: Scalar) -> Scalar {
        if self@ is Nan {
            other
        } else if other@ is Nan {
            self
        } else if other@.lt(self@) {
            other
        } else {
            self
        }
    }

    /// The greater of the two, passing over a NaN: if one side is not a number
    /// the other is returned. Of two equal numbers (the two zeros) it is `self`.
    pub open spec fn spec_max(self, other: Scalar) -> Scalar {
        if self@ is Nan {
            other
        } else if other@ is Nan {
            self
        } else if self@.lt(other@) {
            other
        } else {
            self
        }
    }

    /// The lesser of the two, passing over a NaN.
    #[verifier::when_used_as_spec(spec_min)]
    pub fn min(self, other: Scalar) -> (r: Scalar)
        ensures
            r == self.spec_min(other),
    {
        if self.is_nan() {
            other
        } else if other.is_nan() {
            self
        } else if other.lt(self) {
            other
        } else {
            self
        }
    }

    /// The greater of the two, passing over a NaN.
    #[verifier::when_used_as_spec(spec_max)]
    pub fn max(self, other: Scalar) -> (r: Scalar)
        ensures
            r == self.spec_max(other),
    {
        if self.is_nan() {
            other
        } else if other.is_nan() {
            self
        } else if self.lt(other) {
            other
        } else {
            self
        }
    }

    /// The scalar as a byte: rounded to the nearest integer, a half upwards,
    /// and held to `0..=255`. What is not a number gives 0.
    pub fn round_to_byte(self) -> (r: u8)
        ensures
            r == self@.nearest_byte(),
    {
        let m: u32 = self.exec_magnitude();
        if self.bits >= SIGN_BIT || m > INFINITY_BITS {
            proof {
                lemma_negative_rounds_to_zero(self);
            }
            return 0;
        }
        let exponent: u32 = m / FRACTION_SPAN;
        let fraction: u32 = m % FRACTION_SPAN;
        if exponent < 126 {
            proof {
                lemma_small_rounds_to_zero(m as int);
            }
            0
        } else if exponent >= 135 {
            proof {
                if m < INFINITY_BITS {
                    lemma_large_rounds_to_top(m as int);
                }
            }
            255
        } else {
            let shift: u32 = 150 - exponent;
            let significand: u32 = FRACTION_SPAN + fraction;
            proof {
                vstd::arithmetic::power2::lemma2_to64();
                lemma_pow2_strictly_increases((shift - 1) as nat, 24);
                vstd::bits::lemma_u32_shl_is_mul(1u32, (shift - 1) as u32);
            }
            let half: u32 = 1u32 << (shift - 1);
            let sum: u32 = significand + half;
            let rounded: u32 = sum >> shift;
            proof {
                vstd::bits::lemma_u32_shr_is_div(sum, shift);
                lemma_middle_rounds(m as int);
            }
            if rounded > 255 {
                255
            } else {
                rounded as u8
            }
        }
    }
}

/// Larger finite magnitudes count more steps.
proof fn lemma_steps_increase(m1: int, m2: int)
    requires
        0 <= m1 < m2 < 0x7f80_0000,
    ensures
        0 <= steps(m1) < steps(m2),
{
    let e1 = m1 / 0x0080_0000;
    let f1 = m1 % 0x0080_0000;
    let e2 = m2 / 0x0080_0000;
    let f2 = m2 % 0x0080_0000;
    assert(e1 <= e2);
    if e1 == 0 {
        if e2 != 0 {
            lemma_pow2_pos((e2 - 1) as nat);
            assert(steps(m2) >= 0x0080_0000) by (nonlinear_arith)
                requires
                    steps(m2) == (0x0080_0000 + f2) * pow2((e2 - 1) as nat),
                    f2 >= 0,
                    pow2((e2 - 1) as nat) >= 1,
            ;
        }
    } else {
        let low_scale = pow2((e1 - 1) as nat) as int;
        let high_scale = pow2((e2 - 1) as nat) as int;
        lemma_pow2_pos((e1 - 1) as nat);
        assert(0 <= steps(m1)) by (nonlinear_arith)
            requires
                steps(m1) == (0x0080_0000 + f1) * low_scale,
                f1 >= 0,
                low_scale >= 1,
        ;
        if e1 == e2 {
            assert(steps(m1) < steps(m2)) by (nonlinear_arith)
                requires
                    steps(m1) == (0x0080_0000 + f1) * low_scale,
                    steps(m2) == (0x0080_0000 + f2) * low_scale,
                    f1 < f2,
                    low_scale >= 1,
            ;
        } else {
            lemma_pow2_unfold(e1 as nat);
            if e1 < e2 - 1 {
                lemma_pow2_strictly_increases(e1 as nat, (e2 - 1) as nat);
            }
            assert(steps(m1) < steps(m2)) by (nonlinear_arith)
                requires
                    steps(m1) == (0x0080_0000 + f1) * low_scale,
                    steps(m2) == (0x0080_0000 + f2) * high_scale,
                    0 <= f1 < 0x0080_0000,
                    0 <= f2,
                    low_scale >= 1,
                    2 * low_scale <= high_scale,
            ;
        }
    }
}

/// Zero is the only finite magnitude that counts no steps.
proof fn lemma_steps_zero(m: int)
    requires
        0 <= m < 0x7f80_0000,
    ensures
        steps(m) >= 0,
        steps(m) == 0 <==> m == 0,
{
    if m > 0 {
        lemma_steps_increase(0, m);
    }
}

/// Among patterns that are numbers, rank orders as value does.
pub proof fn lemma_rank_orders(a: Scalar, b: Scalar)
    ensures
        a@.lt(b@) <==> !(a@ is Nan) && !(b@ is Nan) && a.rank() < b.rank(),
        a@.same(b@) <==> !(a@ is Nan) && !(b@ is Nan) && a.rank() == b.rank(),
        a@.le(b@) <==> !(a@ is Nan) && !(b@ is Nan) && a.rank() <= b.rank(),
{
    let ma = a.magnitude();
    let mb = b.magnitude();
    if ma < 0x7f80_0000 {
        lemma_steps_zero(ma);
    }
    if mb < 0x7f80_0000 {
        lemma_steps_zero(mb);
    }
    if ma < 0x7f80_0000 && mb < 0x7f80_0000 {
        if ma < mb {
            lemma_steps_increase(ma, mb);
        } else if mb < ma {
            lemma_steps_increase(mb, ma);
        }
    }
}

/// What is negative or not a number rounds to the byte 0.
proof fn lemma_negative_rounds_to_zero(a: Scalar)
    requires
        a.negative() || a@ is Nan,
    ensures
        a@.nearest_byte() == 0,
{
    if a.magnitude() < 0x7f80_0000 {
        lemma_steps_zero(a.magnitude());
        let scaled = -steps(a.magnitude());
        let half = pow2(148) as int;
        let unit = pow2(149) as int;
        lemma_pow2_unfold(149);
        lemma_pow2_pos(148);
        assert((scaled + half) / unit <= 0) by (nonlinear_arith)
            requires
                scaled <= 0,
                half > 0,
                unit == 2 * half,
        ;
    }
}

/// A non-negative value under one half rounds to the byte 0.
proof fn lemma_small_rounds_to_zero(m: int)
    requires
        0 <= m < 126 * 0x0080_0000,
    ensures
        ((steps(m) + pow2(148)) / (pow2(149) as int)) == 0,
{
    let edge: int = 0x3f00_0000;
    lemma_steps_increase(m, edge);
    assert(edge / 0x0080_0000 == 126);
    assert(edge % 0x0080_0000 == 0);
    vstd::arithmetic::power2::lemma2_to64();
    lemma_pow2_scale(23, 125);
    assert(steps(edge) == pow2(148));
    lemma_pow2_unfold(149);
    let s = steps(m);
    let half = pow2(148) as int;
    let unit = pow2(149) as int;
    assert((s + half) / unit == 0) by (nonlinear_arith)
        requires
            0 <= s < half,
            unit == 2 * half,
    ;
}

/// A finite value of 256 or more rounds past the top of a byte.
proof fn lemma_large_rounds_to_top(m: int)
    requires
        135 * 0x0080_0000 <= m < 0x7f80_0000,
    ensures
        ((steps(m) + pow2(148)) / (pow2(149) as int)) > 255,
{
    let edge: int = 0x4380_0000;
    if edge < m {
        lemma_steps_increase(edge, m);
    }
    assert(edge / 0x0080_0000 == 135);
    assert(edge % 0x0080_0000 == 0);
    vstd::arithmetic::power2::lemma2_to64();
    lemma_pow2_scale(23, 134);
    lemma_pow2_scale(8, 149);
    assert(steps(edge) == 256 * pow2(149));
    lemma_pow2_pos(148);
    lemma_pow2_pos(149);
    let s = steps(m);
    let half = pow2(148) as int;
    let unit = pow2(149) as int;
    assert((s + half) / unit > 255) by (nonlinear_arith)
        requires
            s >= 256 * unit,
            half > 0,
            unit > 0,
    ;
}

/// Between one half and 256 the rounding is a shift of the significand.
proof fn lemma_middle_rounds(m: int)
    requires
        126 * 0x0080_0000 <= m < 135 * 0x0080_0000,
    ensures
        ({
            let shift = (150 - m / 0x0080_0000) as nat;
            let significand = 0x0080_0000 + m % 0x0080_0000;
            (steps(m) + pow2(148)) / (pow2(149) as int) == (significand + pow2((shift - 1) as nat))
                / (pow2(shift) as int)
        }),
{
    let exponent = m / 0x0080_0000;
    let shift = (150 - exponent) as nat;
    let significand = 0x0080_0000 + m % 0x0080_0000;
    let scale = pow2((exponent - 1) as nat) as int;
    let half = pow2((shift - 1) as nat) as int;
    let whole = pow2(shift) as int;
    lemma_pow2_scale((exponent - 1) as nat, (shift - 1) as nat);
    lemma_pow2_scale((exponent - 1) as nat, shift);
    lemma_pow2_pos((exponent - 1) as nat);
    lemma_pow2_pos((shift - 1) as nat);
    lemma_pow2_pos(shift);
    assert(scale * half == pow2(148));
    assert(scale * whole == pow2(149));
    assert(steps(m) + pow2(148) == scale * (significand + half)) by (nonlinear_arith)
        requires
            steps(m) == significand * scale,
            scale * half == pow2(148),
    ;
    vstd::arithmetic::div_mod::lemma_div_multiples_vanish_quotient(scale, significand + half, whole);
}

/// Numbers are totally ordered: of two of them exactly one is less, or they
/// are equal in value. The order is transitive.
pub proof fn lemma_order(a: Scalar, b: Scalar, c: Scalar)
    ensures
        !a@.lt(a@),
        !(a@ is Nan) && !(b@ is Nan) ==> (a@.lt(b@) || a@.same(b@) || b@.lt(a@)),
        !(a@.lt(b@) && b@.lt(a@)),
        !(a@.lt(b@) && a@.same(b@)),
        a@.lt(b@) && b@.lt(c@) ==> a@.lt(c@),
        a@.le(b@) && b@.le(c@) ==> a@.le(c@),
        a@.same(b@) ==> b@.same(a@),
{
    lemma_rank_orders(a, a);
    lemma_rank_orders(a, b);
    lemma_rank_orders(b, a);
    lemma_rank_orders(b, c);
    lemma_rank_orders(a, c);
}

/// `1.0` counts `2^149` steps.
proof fn lemma_one_value()
    ensures
        Scalar::spec_one()@ == (Value::Finite { scaled: pow2(149) as int }),
{
    let m: int = 0x3f80_0000;
    assert(m / 0x0080_0000 == 127);
    assert(m % 0x0080_0000 == 0);
    lemma_pow2_scale(23, 126);
    vstd::arithmetic::power2::lemma2_to64();
}

/// `2^a * 2^b == 2^(a + b)`, with the product written out.
proof fn lemma_pow2_scale(a: nat, b: nat)
    ensures
        pow2(a) * pow2(b) == pow2(a + b),
{
    vstd::arithmetic::power2::lemma_pow2_adds(a, b);
}

} // verus!
