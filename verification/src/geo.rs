//! What a ray hits: the decisions of the three intersection routines.
//!
//! Each routine computes a few numbers from the ray and the surface and then
//! decides, by comparing them, whether there is a hit and where. The numbers
//! are the caller's; the decisions are here.
//!
//! A ray parameter `t` is accepted when it lies in the closed interval from
//! `t_min` to `t_max`. A comparison with a NaN is false, so a NaN anywhere
//! among the inputs can only turn a hit into a miss.

use vstd::prelude::*;
use crate::scalar::Scalar;

verus! {

/// A direction or displacement in space.
#[derive(Clone, Copy, Debug, PartialEq, Eq, Structural)]
pub struct Vector {
    pub x: Scalar,
    pub y: Scalar,
    pub z: Scalar,
}

/// One of the two points where a ray's line crosses a sphere.
#[derive(Clone, Copy, Debug, PartialEq, Eq, Structural)]
pub enum Root {
    /// The crossing with the smaller ray parameter, `(-b - sqrt(d)) / a`.
    Near,
    /// The crossing with the larger ray parameter, `(-b + sqrt(d)) / a`.
    Far,
}

/// How far a point lies along an edge of a triangle, and how long that edge is.
#[derive(Clone, Copy, Debug, PartialEq, Eq, Structural)]
pub struct Projection {
    /// The dot product of the point, taken from the edge's start, with the
    /// edge's unit direction.
    pub along: Scalar,
    /// The length of the edge.
    pub length: Scalar,
}

/// `t` lies between `t_min` and `t_max`, ends included.
pub open spec fn in_range(t: Scalar, t_min: Scalar, t_max: Scalar) -> bool {
    t@.within(t_min@, t_max@)
}

/// The ray runs against the surface normal: `normal . direction < 0`.
pub open spec fn faces(denominator: Scalar) -> bool {
    denominator@.lt(Scalar::spec_zero()@)
}

/// The root at which a ray hits a sphere.
///
/// There is a hit only when the discriminant is positive. Then the near root
/// is taken if it is in range, else the far root if that is in range.
pub open spec fn spec_sphere_root(
    discriminant: Scalar,
    near: Scalar,
    far: Scalar,
    t_min: Scalar,
    t_max: Scalar,
) -> Option<Root> {
    if !Scalar::spec_zero()@.lt(discriminant@) {
        None
    } else if in_range(near, t_min, t_max) {
        Some(Root::Near)
    } else if in_range(far, t_min, t_max) {
        Some(Root::Far)
    } else {
        None
    }
}

/// Whether a ray hits a plane: it must run against the normal, and cross
/// the plane at a parameter in range.
pub open spec fn spec_plane_hit(denominator: Scalar, t: Scalar, t_min: Scalar, t_max: Scalar) -> bool {
    faces(denominator) && in_range(t, t_min, t_max)
}

impl Projection {
    /// The point projects onto the edge itself: not before its start, not
    /// past its end.
    pub open spec fn spec_on_edge(&self) -> bool {
        in_range(self.along, Scalar::spec_zero(), self.length)
    }

    /// Whether the point projects onto the edge itself.
    #[verifier::when_used_as_spec(spec_on_edge)]
    pub fn on_edge(&self) -> (r: bool)
        ensures
            r == self.spec_on_edge(),
    {
        self.along.ge(Scalar::zero()) && self.along.le(self.length)
    }
}

/// Whether a ray hits a triangle: it must hit the triangle's plane, and the
/// point where it does must project onto each of the three edges.
pub open spec fn spec_triangle_hit(
    denominator: Scalar,
    t: Scalar,
    t_min: Scalar,
    t_max: Scalar,
    ab: Projection,
    ac: Projection,
    bc: Projection,
) -> bool {
    &&& spec_plane_hit(denominator, t, t_min, t_max)
    &&& ab.spec_on_edge()
    &&& ac.spec_on_edge()
    &&& bc.spec_on_edge()
}

/// Whether `t` lies between `t_min` and `t_max`, ends included.
pub fn within_range(t: Scalar, t_min: Scalar, t_max: Scalar) -> (r: bool)
    ensures
        r == in_range(t, t_min, t_max),
{
    t.le(t_max) && t.ge(t_min)
}

/// Decides the hit of a ray on a sphere.
///
/// `discriminant` is `b*b - a*c` of the quadratic in the ray parameter, with
/// `a = d.d`, `b = oc.d` and `c = oc.oc - r*r`; `near` and `far` are its two
/// roots. A discriminant that is zero, negative or not a number is a miss,
/// whatever the roots are.
pub fn sphere_root(discriminant: Scalar, near: Scalar, far: Scalar, t_min: Scalar, t_max: Scalar) -> (r:
    Option<Root>)
    ensures
        r == spec_sphere_root(discriminant, near, far, t_min, t_max),
{
    if discriminant.gt(Scalar::zero()) {
        if within_range(near, t_min, t_max) {
            Some(Root::Near)
        } else if within_range(far, t_min, t_max) {
            Some(Root::Far)
        } else {
            None
        }
    } else {
        None
    }
}

/// Decides the hit of a ray on a plane.
///
/// `denominator` is `normal . direction`, and `t` is
/// `(point - origin) . normal / denominator`.
pub fn plane_hit(denominator: Scalar, t: Scalar, t_min: Scalar, t_max: Scalar) -> (r: bool)
    ensures
        r == spec_plane_hit(denominator, t, t_min, t_max),
{
    denominator.lt(Scalar::zero()) && within_range(t, t_min, t_max)
}

/// Decides the hit of a ray on a triangle.
///
/// `denominator` and `t` are as for the triangle's plane. `ab` and `ac`
/// project the crossing point, taken from vertex `a`, onto the edges from `a`
/// to `b` and from `a` to `c`; `bc` projects it, taken from `b`, onto the
/// edge from `b` to `c`.
pub fn triangle_hit(
    denominator: Scalar,
    t: Scalar,
    t_min: Scalar,
    t_max: Scalar,
    ab: Projection,
    ac: Projection,
    bc: Projection,
) -> (r: bool)
    ensures
        r == spec_triangle_hit(denominator, t, t_min, t_max, ab, ac, bc),
{
    plane_hit(denominator, t, t_min, t_max) && ab.on_edge() && ac.on_edge() && bc.on_edge()
}

/// A ray that runs along a plane, or away from its front, never hits it;
/// nor does it hit a triangle in that plane.
pub proof fn lemma_no_hit_from_behind(
    denominator: Scalar,
    t: Scalar,
    t_min: Scalar,
    t_max: Scalar,
    ab: Projection,
    ac: Projection,
    bc: Projection,
)
    requires
        Scalar::spec_zero()@.le(denominator@),
    ensures
        !spec_plane_hit(denominator, t, t_min, t_max),
        !spec_triangle_hit(denominator, t, t_min, t_max, ab, ac, bc),
{
    crate::scalar::lemma_rank_orders(denominator, Scalar::spec_zero());
    crate::scalar::lemma_rank_orders(Scalar::spec_zero(), denominator);
}

/// A sphere is hit exactly when its discriminant is positive and one of the
/// roots is in range. The root that is returned is in range, and the far root
/// is returned only when the near one is not.
pub proof fn lemma_sphere_root(discriminant: Scalar, near: Scalar, far: Scalar, t_min: Scalar, t_max: Scalar)
    ensures
        spec_sphere_root(discriminant, near, far, t_min, t_max) is Some <==> Scalar::spec_zero()@.lt(
            discriminant@,
        ) && (in_range(near, t_min, t_max) || in_range(far, t_min, t_max)),
        spec_sphere_root(discriminant, near, far, t_min, t_max) == Some(Root::Near) ==> in_range(
            near,
            t_min,
            t_max,
        ),
        spec_sphere_root(discriminant, near, far, t_min, t_max) == Some(Root::Far) ==> in_range(
            far,
            t_min,
            t_max,
        ) && !in_range(near, t_min, t_max),
{
}

/// A point that falls off any one edge is outside the triangle.
pub proof fn lemma_outside_an_edge(
    denominator: Scalar,
    t: Scalar,
    t_min: Scalar,
    t_max: Scalar,
    ab: Projection,
    ac: Projection,
    bc: Projection,
)
    requires
        !ab.spec_on_edge() || !ac.spec_on_edge() || !bc.spec_on_edge(),
    ensures
        !spec_triangle_hit(denominator, t, t_min, t_max, ab, ac, bc),
{
}

} // verus!
