//! Materials: what a surface gives back of the light that reaches it, what
//! it emits, and the choices a ray makes at glass.
//!
//! The direction of the scattered ray is arithmetic and is the caller's. The
//! colours are not: which colour attenuates the path and which is emitted is
//! a rule of each material, and the rules are here.

use vstd::prelude::*;
use crate::color::Color;
use crate::geo::Vector;
use crate::scalar::Scalar;

verus! {

/// A matte surface: scatters about the normal, tinted by `albedo`.
#[derive(Clone, Copy, Debug)]
pub struct Lambertian {
    pub albedo: Color,
}

/// A mirror, tinted by `albedo`. `shinyness` is carried for a glossy
/// reflection and does not bend the mirror direction.
#[derive(Clone, Copy, Debug)]
pub struct Metal {
    pub albedo: Color,
    pub shinyness: Scalar,
}

/// Glass: reflects or refracts, and absorbs nothing.
#[derive(Clone, Copy, Debug)]
pub struct Dialectric {
    pub refractive_index: Scalar,
}

/// A light: emits `color` and gives back nothing of what reaches it.
#[derive(Clone, Copy, Debug)]
pub struct DiffuseLight {
    pub color: Color,
}

/// Shows how far away the hit is, as a grey tone.
#[derive(Clone, Copy, Debug)]
pub struct DebugDepth {}

/// Shows the surface normal, its components as red, green and blue.
#[derive(Clone, Copy, Debug)]
pub struct DebugNormal {}

/// The emitting side of a material.
pub trait Material {
    /// What the material emits at a point with surface coordinates `uvw`
    /// and normal `normal`.
    spec fn emission(&self, uvw: Vector, normal: Vector) -> Color;

    /// The light that the surface emits by itself. Black, unless the
    /// material says otherwise.
    fn emitted(&self, uvw: &Vector, normal: &Vector) -> (c: Color)
        ensures
            c == self.emission(*uvw, *normal),
    ;
}

/// The ray runs along the normal, so it is leaving the glass: the dot product
/// of its direction with the normal is positive.
pub open spec fn spec_leaves(direction_dot_normal: Scalar) -> bool {
    Scalar::spec_zero()@.lt(direction_dot_normal@)
}

/// Refraction is possible: the discriminant `1 - n*n*(1 - c*c)` of Snell's
/// law is positive. Otherwise the ray is reflected within.
pub open spec fn spec_refracts(discriminant: Scalar) -> bool {
    Scalar::spec_zero()@.lt(discriminant@)
}

/// A ray that can refract does so when the drawn sample exceeds the chance
/// of reflection.
pub open spec fn spec_transmits(sample: Scalar, reflect_probability: Scalar) -> bool {
    reflect_probability@.lt(sample@)
}

/// A point is kept when its squared length is at most one.
pub open spec fn spec_in_unit_sphere(magnitude2: Scalar) -> bool {
    magnitude2@.le(Scalar::spec_one()@)
}

impl Material for Lambertian {
    open spec fn emission(&self, uvw: Vector, normal: Vector) -> Color {
        Color::spec_grey(Scalar::spec_zero())
    }

    fn emitted(&self, uvw: &Vector, normal: &Vector) -> (c: Color) {
        Color::grey(Scalar::zero())
    }
}

impl Material for Metal {
    open spec fn emission(&self, uvw: Vector, normal: Vector) -> Color {
        Color::spec_grey(Scalar::spec_zero())
    }

    fn emitted(&self, uvw: &Vector, normal: &Vector) -> (c: Color) {
        Color::grey(Scalar::zero())
    }
}

impl Material for Dialectric {
    open spec fn emission(&self, uvw: Vector, normal: Vector) -> Color {
        Color::spec_grey(Scalar::spec_zero())
    }

    fn emitted(&self, uvw: &Vector, normal: &Vector) -> (c: Color) {
        Color::grey(Scalar::zero())
    }
}

impl Material for DiffuseLight {
    open spec fn emission(&self, uvw: Vector, normal: Vector) -> Color {
        self.color
    }

    fn emitted(&self, uvw: &Vector, normal: &Vector) -> (c: Color) {
        self.color
    }
}

impl Material for DebugDepth {
    open spec fn emission(&self, uvw: Vector, normal: Vector) -> Color {
        Color::spec_grey(Scalar::spec_zero())
    }

    fn emitted(&self, uvw: &Vector, normal: &Vector) -> (c: Color) {
        Color::grey(Scalar::zero())
    }
}

impl Material for DebugNormal {
    open spec fn emission(&self, uvw: Vector, normal: Vector) -> Color {
        Color::spec_grey(Scalar::spec_zero())
    }

    fn emitted(&self, uvw: &Vector, normal: &Vector) -> (c: Color) {
        Color::grey(Scalar::zero())
    }
}

impl Lambertian {
    /// The colour that tints the scattered light: the albedo.
    pub fn attenuation(&self) -> (c: Color)
        ensures
            c == self.albedo,
    {
        self.albedo
    }

    /// The cosine between normal and scattered ray, as it enters the
    /// sampling weight `max(0, n . d) / pi`: never under zero, and zero when
    /// the dot product is not a number.
    pub fn weight_cosine(normal_dot_outgoing: Scalar) -> (r: Scalar)
        ensures
            r == Scalar::spec_zero().spec_max(normal_dot_outgoing),
    {
        Scalar::zero().max(normal_dot_outgoing)
    }
}

impl Metal {
    /// The colour that tints the reflected light: the albedo.
    pub fn attenuation(&self) -> (c: Color)
        ensures
            c == self.albedo,
    {
        self.albedo
    }
}

impl Dialectric {
    /// Glass absorbs nothing: the attenuation is white.
    pub fn attenuation(&self) -> (c: Color)
        ensures
            c == Color::spec_grey(Scalar::spec_one()),
    {
        Color::grey(Scalar::one())
    }

    /// Whether the ray is leaving the glass. Then the normal is turned
    /// round and the index ratio is the refractive index; else the normal
    /// stands and the ratio is its inverse.
    pub fn leaves(direction_dot_normal: Scalar) -> (r: bool)
        ensures
            r == spec_leaves(direction_dot_normal),
    {
        direction_dot_normal.gt(Scalar::zero())
    }

    /// Whether a ray that can refract does so, given a sample drawn from
    /// zero to one and the chance of reflection.
    pub fn transmits(sample: Scalar, reflect_probability: Scalar) -> (r: bool)
        ensures
            r == spec_transmits(sample, reflect_probability),
    {
        sample.gt(reflect_probability)
    }
}

impl DiffuseLight {
    /// A light gives back nothing: the attenuation is black.
    pub fn attenuation(&self) -> (c: Color)
        ensures
            c == Color::spec_grey(Scalar::spec_zero()),
    {
        Color::grey(Scalar::zero())
    }
}

impl DebugDepth {
    /// The grey of a hit, from its tone `1 - log(distance)` to base 1000,
    /// held to the displayable range.
    pub fn attenuation(tone: Scalar) -> (c: Color)
        ensures
            c == Color::spec_grey(tone).spec_saturate(),
            c.saturated(),
    {
        Color::grey(tone).saturate()
    }
}

impl DebugNormal {
    /// The colour of a normal: its components as red, green and blue, held
    /// to the displayable range.
    pub fn attenuation(normal: &Vector) -> (c: Color)
        ensures
            c == (Color { r: normal.x, g: normal.y, b: normal.z, a: Scalar::spec_one() }).spec_saturate(),
            c.saturated(),
    {
        Color::new(normal.x, normal.y, normal.z, Scalar::one()).saturate()
    }
}

/// Whether Snell's law has a solution for a ray, given its discriminant.
pub fn refracts(discriminant: Scalar) -> (r: bool)
    ensures
        r == spec_refracts(discriminant),
{
    discriminant.gt(Scalar::zero())
}

/// Whether a point drawn from the cube around the unit sphere lies in the
/// sphere, given its squared length. A point that does not is drawn again.
pub fn in_unit_sphere(magnitude2: Scalar) -> (r: bool)
    ensures
        r == spec_in_unit_sphere(magnitude2),
{
    magnitude2.le(Scalar::one())
}

/// Glass reflects whenever it cannot refract or the sample does not exceed
/// the chance of reflection; a sample that is not a number always reflects.
pub proof fn lemma_reflection_is_the_rule(discriminant: Scalar, sample: Scalar, reflect_probability: Scalar)
    ensures
        sample@ is Nan ==> !spec_transmits(sample, reflect_probability),
        reflect_probability@ is Nan ==> !spec_transmits(sample, reflect_probability),
        discriminant@ is Nan ==> !spec_refracts(discriminant),
        discriminant@.le(Scalar::spec_zero()@) ==> !spec_refracts(discriminant),
{
    crate::scalar::lemma_rank_orders(discriminant, Scalar::spec_zero());
    crate::scalar::lemma_rank_orders(Scalar::spec_zero(), discriminant);
}

} // verus!
