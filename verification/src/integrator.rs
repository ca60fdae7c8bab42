//! The light-transport integrator: which surface a ray meets first, and
//! whether the path goes on from there.
//!
//! Tracing a ray is a short loop of questions. Which surface is nearest?
//! None: the ray shows the background. One: its material emits and scatters,
//! and the scattered ray is traced in turn, unless the path is already
//! `MAX_DEPTH` bounces deep. This module answers those questions; finding the
//! hits and adding up the light is arithmetic and is the caller's.

use vstd::prelude::*;
use crate::scalar::{Scalar, lemma_rank_orders};

verus! {

/// The deepest level at which a scattered ray is still traced.
pub const MAX_DEPTH: u8 = 10;

/// The pattern of `0.001`, the least ray parameter accepted after a bounce.
/// It keeps a scattered ray from hitting the surface it starts on.
pub const BOUNCE_T_MIN_BITS: u32 = 0x3a83_126f;

/// What to do with a ray once its nearest hit is known.
#[derive(Clone, Copy, Debug, PartialEq, Eq, Structural)]
pub enum Step {
    /// Nothing was hit: the ray's radiance is the background's.
    Background,
    /// Something was hit and the path goes on: trace the scattered ray at
    /// `depth` with parameters from `t_min` to `t_max`, and return what the
    /// surface emits plus its attenuation times the result.
    Scatter { depth: u8, t_min: Scalar, t_max: Scalar },
    /// Something was hit and the path ends here: return what the surface
    /// emits plus its attenuation.
    Terminate,
}

/// A squared distance that can win the search: a hit, nearer than the
/// largest finite value. A miss, an infinite distance and a NaN cannot.
pub open spec fn eligible(distance: Option<Scalar>) -> bool {
    distance matches Some(d) && d@.lt(Scalar::spec_largest()@)
}

/// Some surface was hit at an eligible distance.
pub open spec fn has_hit(distances: Seq<Option<Scalar>>) -> bool {
    exists|j: int| 0 <= j < distances.len() && eligible(#[trigger] distances[j])
}

/// Surface `i` is the nearest hit: it is eligible, no eligible surface is
/// nearer, and every eligible surface before it is strictly farther.
pub open spec fn is_nearest(distances: Seq<Option<Scalar>>, i: int) -> bool {
    &&& 0 <= i < distances.len()
    &&& eligible(distances[i])
    &&& forall|j: int|
        0 <= j < distances.len() && eligible(#[trigger] distances[j]) ==> distances[i].unwrap()@.le(
            distances[j].unwrap()@,
        )
    &&& forall|j: int|
        0 <= j < i && eligible(#[trigger] distances[j]) ==> distances[i].unwrap()@.lt(
            distances[j].unwrap()@,
        )
}

/// The step taken at `depth` when the search for a hit ended with `hit`.
pub open spec fn spec_step(depth: u8, t_max: Scalar, hit: bool) -> Step {
    if !hit {
        Step::Background
    } else if depth < MAX_DEPTH {
        Step::Scatter { depth: (depth + 1) as u8, t_min: Scalar { bits: BOUNCE_T_MIN_BITS }, t_max }
    } else {
        Step::Terminate
    }
}

/// How many scattered rays a path traces that starts at `depth` and whose
/// successive searches end as `hits` says. The path stops at the first miss,
/// at the first `Terminate`, or when `hits` runs out.
pub open spec fn bounces(depth: u8, t_max: Scalar, hits: Seq<bool>) -> nat
    decreases hits.len(),
{
    if hits.len() == 0 {
        0
    } else {
        match spec_step(depth, t_max, hits[0]) {
            Step::Scatter { depth: next, .. } => 1 + bounces(next, t_max, hits.drop_first()),
            _ => 0,
        }
    }
}

/// Finds the nearest hit among the surfaces of a scene.
///
/// `distances[i]` is the squared distance from the ray's origin to the point
/// where the ray hits surface `i`, or `None` where it misses. The result is
/// the surface with the least distance; of several at that distance, the
/// first.
pub fn intersect_objects(distances: &Vec<Option<Scalar>>) -> (r: Option<usize>)
    ensures
        r is Some <==> has_hit(distances@),
        r matches Some(i) ==> is_nearest(distances@, i as int),
{
    let mut closest: Option<usize> = None;
    let mut closest_distance: Scalar = Scalar::largest();
    let mut n: usize = 0;
    while n < distances.len()
        invariant
            n <= distances.len(),
            closest is None ==> closest_distance == Scalar::spec_largest(),
            closest is None ==> forall|j: int| 0 <= j < n ==> !eligible(#[trigger] distances@[j]),
            closest matches Some(i) ==> i < n && distances@[i as int] == Some(closest_distance)
                && is_nearest(distances@.take(n as int), i as int),
        decreases distances.len() - n,
    {
        let ghost before = distances@.take(n as int);
        let ghost after = distances@.take(n + 1);
        assert(forall|j: int| 0 <= j < n ==> before[j] == after[j]);
        assert(after[n as int] == distances@[n as int]);
        if let Some(d) = distances[n] {
            proof {
                lemma_rank_orders(d, closest_distance);
                lemma_rank_orders(d, Scalar::spec_largest());
                lemma_rank_orders(closest_distance, Scalar::spec_largest());
                lemma_rank_orders(closest_distance, d);
                lemma_rank_orders(d, d);
            }
            if d.lt(closest_distance) {
                proof {
                    assert forall|j: int| 0 <= j < after.len() && eligible(#[trigger] after[j]) implies d@.le(
                        after[j].unwrap()@,
                    ) by {
                        if j < n {
                            lemma_rank_orders(closest_distance, after[j].unwrap());
                            lemma_rank_orders(d, after[j].unwrap());
                            lemma_rank_orders(after[j].unwrap(), Scalar::spec_largest());
                        }
                    }
                    assert forall|j: int| 0 <= j < n && eligible(#[trigger] after[j]) implies d@.lt(
                        after[j].unwrap()@,
                    ) by {
                        lemma_rank_orders(closest_distance, after[j].unwrap());
                        lemma_rank_orders(d, after[j].unwrap());
                        lemma_rank_orders(after[j].unwrap(), Scalar::spec_largest());
                    }
                }
                closest = Some(n);
                closest_distance = d;
            } else {
                proof {
                    if let Some(i) = closest {
                        assert forall|j: int|
                            0 <= j < after.len() && eligible(#[trigger] after[j]) implies closest_distance@.le(
                            after[j].unwrap()@,
                        ) by {
                            if j < n {
                                assert(eligible(before[j]));
                            }
                        }
                        assert forall|j: int| 0 <= j < i && eligible(#[trigger] after[j]) implies closest_distance@.lt(
                            after[j].unwrap()@,
                        ) by {
                            assert(eligible(before[j]));
                        }
                    }
                }
            }
        } else {
            proof {
                if let Some(i) = closest {
                    assert forall|j: int|
                        0 <= j < after.len() && eligible(#[trigger] after[j]) implies closest_distance@.le(
                        after[j].unwrap()@,
                    ) by {
                        assert(eligible(before[j]));
                    }
                    assert forall|j: int| 0 <= j < i && eligible(#[trigger] after[j]) implies closest_distance@.lt(
                        after[j].unwrap()@,
                    ) by {
                        assert(eligible(before[j]));
                    }
                }
            }
        }
        n = n + 1;
    }
    assert(distances@.take(n as int) =~= distances@);
    closest
}

/// Decides how the path goes on at `depth`, after the search for the nearest
/// hit ended with `hit`.
///
/// A miss shows the background, at any depth. A hit scatters while `depth` is
/// below `MAX_DEPTH`: the scattered ray is traced one level deeper, from
/// `0.001` on and up to the same `t_max`. At `MAX_DEPTH` and beyond a hit
/// ends the path.
pub fn step(depth: u8, t_max: Scalar, hit: bool) -> (r: Step)
    ensures
        r == spec_step(depth, t_max, hit),
{
    if !hit {
        Step::Background
    } else if depth < MAX_DEPTH {
        Step::Scatter { depth: depth + 1, t_min: Scalar::from_bits(BOUNCE_T_MIN_BITS), t_max }
    } else {
        Step::Terminate
    }
}

/// The nearest hit is unique.
pub proof fn lemma_nearest_unique(distances: Seq<Option<Scalar>>, i: int, k: int)
    requires
        is_nearest(distances, i),
        is_nearest(distances, k),
    ensures
        i == k,
{
    lemma_rank_orders(distances[i].unwrap(), distances[k].unwrap());
    lemma_rank_orders(distances[k].unwrap(), distances[i].unwrap());
}

/// A scene without surfaces shows the background to every ray, at every depth.
pub proof fn lemma_empty_scene(depth: u8, t_max: Scalar)
    ensures
        !has_hit(Seq::<Option<Scalar>>::empty()),
        spec_step(depth, t_max, has_hit(Seq::<Option<Scalar>>::empty())) == Step::Background,
{
}

/// A path never goes deeper than `MAX_DEPTH`: a scattered ray is traced only
/// from a depth below it, and at a depth no greater than it.
pub proof fn lemma_depth_bounded(depth: u8, t_max: Scalar, hit: bool)
    ensures
        spec_step(depth, t_max, hit) matches Step::Scatter { depth: next, .. } ==> depth < MAX_DEPTH && next
            == depth + 1 && next <= MAX_DEPTH,
        depth >= MAX_DEPTH ==> !(spec_step(depth, t_max, hit) is Scatter),
{
}

/// Whatever the scene, a path that starts at `depth` traces at most
/// `MAX_DEPTH - depth` scattered rays, and none if it starts at `MAX_DEPTH`
/// or deeper.
pub proof fn lemma_bounces_bounded(depth: u8, t_max: Scalar, hits: Seq<bool>)
    ensures
        depth <= MAX_DEPTH ==> bounces(depth, t_max, hits) <= MAX_DEPTH - depth,
        depth >= MAX_DEPTH ==> bounces(depth, t_max, hits) == 0,
    decreases hits.len(),
{
    if hits.len() > 0 && hits[0] && depth < MAX_DEPTH {
        lemma_bounces_bounded((depth + 1) as u8, t_max, hits.drop_first());
    }
}

/// Between mirrors that face each other every search is a hit; the path
/// from `depth` then traces exactly `MAX_DEPTH - depth` scattered rays.
pub proof fn lemma_bounces_between_mirrors(depth: u8, t_max: Scalar, hits: Seq<bool>)
    requires
        depth <= MAX_DEPTH,
        hits.len() >= MAX_DEPTH - depth,
        forall|j: int| 0 <= j < hits.len() ==> hits[j],
    ensures
        bounces(depth, t_max, hits) == MAX_DEPTH - depth,
    decreases hits.len(),
{
    if depth < MAX_DEPTH {
        let rest = hits.drop_first();
        assert(forall|j: int| 0 <= j < rest.len() ==> rest[j] == hits[j + 1]);
        lemma_bounces_between_mirrors((depth + 1) as u8, t_max, rest);
    } else if hits.len() > 0 {
        assert(hits[0]);
    }
}

} // verus!
