//! Hit decisions of the geometric primitives.
//!
//! The caller solves the ray equation of a primitive and hands over the
//! quantities on which the outcome turns, as ordinals. The functions here
//! decide whether the ray hits, and at which root. Where the equation has a
//! solution, the outcome carries it, also when the solution lies behind the
//! origin and is therefore no hit.

use vstd::prelude::*;
use crate::scene::RayIntersection;

verus! {

/// The intersection of a ray for which the equation was not solved: no hit,
/// at distance 0.
pub open spec fn miss() -> RayIntersection {
    RayIntersection { did_intersect: false, distance: 0 }
}

/// The intersection that reports a hit at `distance`.
pub open spec fn hit_at(distance: i64) -> RayIntersection {
    RayIntersection { did_intersect: true, distance }
}

/// The intersection at the solution `t` of a ray equation: a hit exactly
/// when the solution is not behind the origin, and `t` as its distance
/// either way.
pub open spec fn at_solution(t: i64) -> RayIntersection {
    RayIntersection { did_intersect: t >= 0, distance: t }
}

/// The root of a sphere at which a ray is taken to meet it: the near root,
/// unless it lies behind the origin, then the far root.
pub open spec fn chosen_root(near: i64, far: i64) -> i64 {
    if near >= 0 {
        near
    } else {
        far
    }
}

/// The line of a ray passes outside a sphere when its squared distance `d2`
/// from the center exceeds the squared radius `r2`: the ray equation then
/// has no real root.
pub open spec fn passes_outside(d2: i64, r2: i64) -> bool {
    d2 > r2
}

/// The outcome of a ray against a sphere.
///
/// `d2` is the squared distance from the sphere's center to the ray's line,
/// `r2` the squared radius, `near` and `far` the two roots along the ray.
/// When the line passes outside the sphere there is no hit and no root.
/// Otherwise the outcome stands at the chosen root; with both roots behind
/// the origin that is the far root, and no hit.
pub open spec fn sphere_outcome(d2: i64, r2: i64, near: i64, far: i64) -> RayIntersection {
    if passes_outside(d2, r2) {
        miss()
    } else {
        at_solution(chosen_root(near, far))
    }
}

/// A ray runs parallel to a plane when the magnitude of the denominator
/// `dot(normal, direction)` is below `epsilon`.
pub open spec fn parallel(denom: i64, epsilon: i64) -> bool {
    -(epsilon as int) < denom as int && (denom as int) < epsilon as int
}

/// The outcome of a ray against a plane.
///
/// `denom` is `dot(normal, direction)` and `t` the solution of the plane
/// equation along the ray. A parallel ray never hits, and its solution is
/// not read; any other ray stands at its solution, and hits when the
/// solution is not behind the origin.
pub open spec fn plane_outcome(denom: i64, epsilon: i64, t: i64) -> RayIntersection {
    if parallel(denom, epsilon) {
        miss()
    } else {
        at_solution(t)
    }
}

/// Decides whether the line of a ray passes outside a sphere, so that there
/// are no roots to compute.
pub fn line_passes_outside(d2: i64, r2: i64) -> (outside: bool)
    ensures
        outside == passes_outside(d2, r2),
{
    d2 > r2
}

/// Decides the intersection of a ray with a sphere from the solved
/// quantities. The roots are read only where the line meets the sphere.
pub fn sphere_ray_intersect(d2: i64, r2: i64, near: i64, far: i64) -> (outcome: RayIntersection)
    ensures
        outcome == sphere_outcome(d2, r2, near, far),
{
    if line_passes_outside(d2, r2) {
        return RayIntersection { did_intersect: false, distance: 0 };
    }
    let t: i64 = if near < 0 {
        far
    } else {
        near
    };
    RayIntersection { did_intersect: !(t < 0), distance: t }
}

/// Decides the intersection of a ray with a plane from the solved
/// quantities. The solution `t` is read only where the ray is not parallel.
pub fn plane_ray_intersect(denom: i64, epsilon: i64, t: i64) -> (outcome: RayIntersection)
    ensures
        outcome == plane_outcome(denom, epsilon, t),
{
    if epsilon > 0 && denom < epsilon && denom > -epsilon {
        RayIntersection { did_intersect: false, distance: 0 }
    } else {
        RayIntersection { did_intersect: t >= 0, distance: t }
    }
}

/// A ray whose closest approach to the center exceeds the radius reports no
/// hit, whatever the roots are.
pub proof fn lemma_sphere_passed_by(d2: i64, r2: i64, near: i64, far: i64)
    requires
        d2 > r2,
    ensures
        !sphere_outcome(d2, r2, near, far).did_intersect,
{
}

/// A reported sphere hit is never behind the origin, and a hit is reported
/// whenever the line meets the sphere and at least one root is not behind
/// the origin.
pub proof fn lemma_sphere_hit_in_front(d2: i64, r2: i64, near: i64, far: i64)
    requires
        near <= far,
    ensures
        sphere_outcome(d2, r2, near, far).did_intersect ==> sphere_outcome(
            d2,
            r2,
            near,
            far,
        ).distance >= 0,
        sphere_outcome(d2, r2, near, far).did_intersect <==> d2 <= r2 && far >= 0,
{
}

/// A ray that starts inside a sphere has its near root behind the origin and
/// its far root ahead: the far root is the hit.
pub proof fn lemma_sphere_from_inside(d2: i64, r2: i64, near: i64, far: i64)
    requires
        d2 <= r2,
        near < 0 <= far,
    ensures
        sphere_outcome(d2, r2, near, far) == hit_at(far),
{
}

/// A ray that starts outside a sphere and points at it hits at the near
/// root.
pub proof fn lemma_sphere_from_outside(d2: i64, r2: i64, near: i64, far: i64)
    requires
        d2 <= r2,
        0 <= near,
    ensures
        sphere_outcome(d2, r2, near, far) == hit_at(near),
{
}

/// A sphere with both roots behind the origin is missed, and the outcome
/// carries the far root.
pub proof fn lemma_sphere_behind(d2: i64, r2: i64, near: i64, far: i64)
    requires
        d2 <= r2,
        near < 0,
        far < 0,
    ensures
        sphere_outcome(d2, r2, near, far) == (RayIntersection {
            did_intersect: false,
            distance: far,
        }),
{
}

/// A ray that is not parallel to a plane stands at its solution, whether
/// that is a hit or lies behind the origin.
pub proof fn lemma_plane_stands_at_solution(denom: i64, epsilon: i64, t: i64)
    requires
        !parallel(denom, epsilon),
    ensures
        plane_outcome(denom, epsilon, t).distance == t,
        plane_outcome(denom, epsilon, t).did_intersect == (t >= 0),
{
}

/// A ray that lies in a direction perpendicular to the plane's normal has a
/// zero denominator and never hits, for every positive epsilon.
pub proof fn lemma_plane_parallel_misses(epsilon: i64, t: i64)
    requires
        epsilon > 0,
    ensures
        !plane_outcome(0, epsilon, t).did_intersect,
{
}

/// A reported plane hit is never behind the origin, and a ray that is not
/// parallel hits exactly when its solution is not behind the origin.
pub proof fn lemma_plane_hit_in_front(denom: i64, epsilon: i64, t: i64)
    ensures
        plane_outcome(denom, epsilon, t).did_intersect ==> plane_outcome(denom, epsilon, t).distance
            == t && t >= 0,
        plane_outcome(denom, epsilon, t).did_intersect <==> !parallel(denom, epsilon) && t >= 0,
{
}

} // verus!
