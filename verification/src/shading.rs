//! The decisions of the local illumination model: which side of the surface
//! a shadow ray starts from, whether a light is occluded, and which cosine
//! terms of a light count.

use vstd::prelude::*;
use crate::scene::{
    find_nearest, is_nearest, lemma_nearest_exists, lemma_nearest_is_unique, resolvable,
    RayIntersection,
};

verus! {

/// A light is occluded when the nearest resolvable hit along the shadow ray
/// lies strictly nearer than the light.
pub open spec fn occluded(hits: Seq<RayIntersection>, cutoff: i64, light_distance: i64) -> bool {
    exists|i: int| is_nearest(hits, cutoff, i) && #[trigger] hits[i].distance < light_distance
}

/// Some primitive stands between the shaded point and the light.
pub open spec fn blocked(hits: Seq<RayIntersection>, cutoff: i64, light_distance: i64) -> bool {
    exists|j: int|
        0 <= j < hits.len() && resolvable(#[trigger] hits[j], cutoff) && hits[j].distance
            < light_distance
}

/// Decides whether a light contributes nothing to a shaded point. `hits`
/// are the intersections of the shadow ray, cast from the point toward the
/// light, with every primitive of the scene; `light_distance` is the
/// distance from the point to the light. Shadows are hard: a light is
/// either fully occluded or not at all.
pub fn in_shadow(hits: &Vec<RayIntersection>, cutoff: i64, light_distance: i64) -> (shadowed: bool)
    ensures
        shadowed == occluded(hits@, cutoff, light_distance),
        shadowed == blocked(hits@, cutoff, light_distance),
{
    proof {
        lemma_occluded_iff_blocked(hits@, cutoff, light_distance);
    }
    match find_nearest(hits, cutoff) {
        Some(i) => {
            let shadowed = hits[i].distance < light_distance;
            proof {
                if occluded(hits@, cutoff, light_distance) {
                    let w = choose|w: int|
                        is_nearest(hits@, cutoff, w) && #[trigger] hits@[w].distance
                            < light_distance;
                    lemma_nearest_is_unique(hits@, cutoff, w, i as int);
                }
            }
            shadowed
        },
        None => {
            proof {
                if occluded(hits@, cutoff, light_distance) {
                    let w = choose|w: int|
                        is_nearest(hits@, cutoff, w) && #[trigger] hits@[w].distance
                            < light_distance;
                    assert(resolvable(hits@[w], cutoff));
                }
            }
            false
        },
    }
}

/// A light is occluded exactly when some primitive stands between the
/// shaded point and the light: a blocked light contributes nothing, and a
/// light with nothing in between is not suppressed.
pub proof fn lemma_occluded_iff_blocked(
    hits: Seq<RayIntersection>,
    cutoff: i64,
    light_distance: i64,
)
    ensures
        occluded(hits, cutoff, light_distance) <==> blocked(hits, cutoff, light_distance),
{
    if occluded(hits, cutoff, light_distance) {
        let i = choose|i: int|
            is_nearest(hits, cutoff, i) && #[trigger] hits[i].distance < light_distance;
        assert(resolvable(hits[i], cutoff));
    }
    if blocked(hits, cutoff, light_distance) {
        let j = choose|j: int|
            0 <= j < hits.len() && resolvable(#[trigger] hits[j], cutoff) && hits[j].distance
                < light_distance;
        let i = lemma_nearest_exists(hits, cutoff, j);
        assert(hits[i].distance < light_distance);
    }
}

/// The side of the surface on which a shadow ray starts. `facing` is
/// `dot(light_dir, normal)`: the origin is moved off the surface along the
/// normal when the light lies on the normal's side (`true`), against the
/// normal otherwise (`false`), so that the ray does not meet the surface it
/// leaves.
pub fn offset_along_normal(facing: i64) -> (along: bool)
    ensures
        along == (facing >= 0),
{
    facing >= 0
}

/// The cosine terms with which one light enters the diffuse and the specular
/// sum of a shaded point.
#[derive(Clone, Copy, Debug, PartialEq, Eq, Structural)]
pub struct LightTerms {
    pub diffuse: i64,
    pub specular: i64,
}

/// A cosine that counts only where it is positive: `max(0, cosine)`. A
/// surface is lit from one side only; a light behind it adds nothing and
/// takes nothing away.
pub open spec fn one_sided(cosine: i64) -> i64 {
    if cosine > 0 {
        cosine
    } else {
        0
    }
}

/// The terms of a light: none when it is shadowed, so that it is left out of
/// both sums, else the one-sided cosines. `facing` is
/// `dot(light_dir, normal)`, `highlight` is
/// `dot(reflect(light_dir, normal), direction)`.
pub open spec fn terms_of(shadowed: bool, facing: i64, highlight: i64) -> Option<LightTerms> {
    if shadowed {
        None
    } else {
        Some(LightTerms { diffuse: one_sided(facing), specular: one_sided(highlight) })
    }
}

/// Decides the terms of one light at a shaded point: runs the shadow test on
/// `hits`, the intersections of the shadow ray with every primitive, and
/// lets the one-sided cosines through where the light is not occluded.
pub fn light_terms(
    hits: &Vec<RayIntersection>,
    cutoff: i64,
    light_distance: i64,
    facing: i64,
    highlight: i64,
) -> (terms: Option<LightTerms>)
    ensures
        terms == terms_of(blocked(hits@, cutoff, light_distance), facing, highlight),
{
    if in_shadow(hits, cutoff, light_distance) {
        None
    } else {
        Some(
            LightTerms {
                diffuse: if facing > 0 {
                    facing
                } else {
                    0
                },
                specular: if highlight > 0 {
                    highlight
                } else {
                    0
                },
            },
        )
    }
}

/// A light with a primitive between it and the shaded point has no terms:
/// it adds nothing to either sum.
pub proof fn lemma_blocked_light_adds_nothing(
    hits: Seq<RayIntersection>,
    cutoff: i64,
    light_distance: i64,
    facing: i64,
    highlight: i64,
)
    requires
        blocked(hits, cutoff, light_distance),
    ensures
        terms_of(blocked(hits, cutoff, light_distance), facing, highlight) is None,
{
}

/// A light with nothing in between that faces the surface enters the diffuse
/// sum with a strictly positive cosine.
pub proof fn lemma_unblocked_facing_light_adds_diffuse(
    hits: Seq<RayIntersection>,
    cutoff: i64,
    light_distance: i64,
    facing: i64,
    highlight: i64,
)
    requires
        !blocked(hits, cutoff, light_distance),
        facing > 0,
    ensures
        terms_of(blocked(hits, cutoff, light_distance), facing, highlight) is Some,
        terms_of(blocked(hits, cutoff, light_distance), facing, highlight).unwrap().diffuse
            == facing,
        terms_of(blocked(hits, cutoff, light_distance), facing, highlight).unwrap().diffuse > 0,
{
}

/// No term of a light is ever negative.
pub proof fn lemma_terms_not_negative(shadowed: bool, facing: i64, highlight: i64)
    ensures
        match terms_of(shadowed, facing, highlight) {
            Some(terms) => terms.diffuse >= 0 && terms.specular >= 0,
            None => shadowed,
        },
{
}

} // verus!
