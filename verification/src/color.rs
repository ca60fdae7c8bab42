//! Colours: red, green, blue and alpha, each a `Scalar`.
//!
//! Only what needs no arithmetic lives here: the named colours and the
//! clamping of a colour to the displayable range.

use vstd::prelude::*;
use crate::scalar::Scalar;

verus! {

/// A radiance or reflectance sample.
#[derive(Clone, Copy, Debug, PartialEq, Eq, Structural)]
pub struct Color {
    pub r: Scalar,
    pub g: Scalar,
    pub b: Scalar,
    pub a: Scalar,
}

/// A scalar held to the range from zero to one: first the lesser of it and
/// one, then the greater of that and zero. What is not a number becomes one.
pub open spec fn unit_clamp(x: Scalar) -> Scalar {
    x.spec_min(Scalar::spec_one()).spec_max(Scalar::spec_zero())
}

/// The value is a number from zero to one, both ends included.
pub open spec fn displayable(x: Scalar) -> bool {
    x@.within(Scalar::spec_zero()@, Scalar::spec_one()@)
}

impl Color {
    /// The opaque grey with all three colour channels equal to `v`.
    pub open spec fn spec_grey(v: Scalar) -> Color {
        Color { r: v, g: v, b: v, a: Scalar::spec_one() }
    }

    /// The colour with every channel held to the range from zero to one.
    pub open spec fn spec_saturate(&self) -> Color {
        Color {
            r: unit_clamp(self.r),
            g: unit_clamp(self.g),
            b: unit_clamp(self.b),
            a: unit_clamp(self.a),
        }
    }

    /// Every channel is displayable.
    pub open spec fn saturated(self) -> bool {
        displayable(self.r) && displayable(self.g) && displayable(self.b) && displayable(self.a)
    }

    /// Opaque black.
    pub fn black() -> (c: Color)
        ensures
            c == Color::spec_grey(Scalar::spec_zero()),
    {
        Color { r: Scalar::zero(), g: Scalar::zero(), b: Scalar::zero(), a: Scalar::one() }
    }

    /// Opaque white.
    pub fn white() -> (c: Color)
        ensures
            c == Color::spec_grey(Scalar::spec_one()),
    {
        Color { r: Scalar::one(), g: Scalar::one(), b: Scalar::one(), a: Scalar::one() }
    }

    /// The opaque grey with all three colour channels equal to `v`.
    #[verifier::when_used_as_spec(spec_grey)]
    pub fn grey(v: Scalar) -> (c: Color)
        ensures
            c == Color::spec_grey(v),
    {
        Color { r: v, g: v, b: v, a: Scalar::one() }
    }

    /// The colour with the given channels.
    pub fn new(r: Scalar, g: Scalar, b: Scalar, a: Scalar) -> (c: Color)
        ensures
            c == (Color { r, g, b, a }),
    {
        Color { r, g, b, a }
    }

    /// The colour with every channel, alpha too, held to the range from zero
    /// to one.
    #[verifier::when_used_as_spec(spec_saturate)]
    pub fn saturate(&self) -> (c: Color)
        ensures
            c == self.spec_saturate(),
            c.saturated(),
    {
        proof {
            lemma_unit_clamp(self.r);
            lemma_unit_clamp(self.g);
            lemma_unit_clamp(self.b);
            lemma_unit_clamp(self.a);
        }
        Color {
            r: self.r.min(Scalar::one()).max(Scalar::zero()),
            g: self.g.min(Scalar::one()).max(Scalar::zero()),
            b: self.b.min(Scalar::one()).max(Scalar::zero()),
            a: self.a.min(Scalar::one()).max(Scalar::zero()),
        }
    }
}

/// What clamping makes of a scalar: always a displayable one, and the scalar
/// itself where that is displayable already.
pub proof fn lemma_unit_clamp(x: Scalar)
    ensures
        displayable(unit_clamp(x)),
        displayable(x) ==> unit_clamp(x) == x,
        x@ is Nan ==> unit_clamp(x) == Scalar::spec_one(),
        Scalar::spec_one()@.lt(x@) ==> unit_clamp(x) == Scalar::spec_one(),
        x@.lt(Scalar::spec_zero()@) ==> unit_clamp(x) == Scalar::spec_zero(),
{
    crate::scalar::lemma_rank_orders(x, Scalar::spec_one());
    crate::scalar::lemma_rank_orders(x, Scalar::spec_zero());
    crate::scalar::lemma_rank_orders(Scalar::spec_zero(), x);
    crate::scalar::lemma_rank_orders(Scalar::spec_one(), x);
    crate::scalar::lemma_rank_orders(Scalar::spec_zero(), Scalar::spec_one());
    crate::scalar::lemma_rank_orders(Scalar::spec_one(), Scalar::spec_zero());
    crate::scalar::lemma_rank_orders(Scalar::spec_zero(), Scalar::spec_zero());
    crate::scalar::lemma_rank_orders(Scalar::spec_one(), Scalar::spec_one());
    crate::scalar::lemma_rank_orders(x, x);
}

/// Saturating is idempotent, and every channel of a saturated colour lies
/// between zero and one.
pub proof fn lemma_saturate_idempotent(c: Color)
    ensures
        c.spec_saturate().spec_saturate() == c.spec_saturate(),
        c.spec_saturate().saturated(),
{
    lemma_unit_clamp(c.r);
    lemma_unit_clamp(c.g);
    lemma_unit_clamp(c.b);
    lemma_unit_clamp(c.a);
    lemma_unit_clamp(unit_clamp(c.r));
    lemma_unit_clamp(unit_clamp(c.g));
    lemma_unit_clamp(unit_clamp(c.b));
    lemma_unit_clamp(unit_clamp(c.a));
}

} // verus!
