//! The scene: primitives and lights in the order in which they were added,
//! a background color, and the nearest-hit selection over the primitives.
//!
//! A scene stores primitives and lights of the caller's types and never
//! looks inside them. It is built up before rendering and only read while
//! rays are traced.

use vstd::prelude::*;
use crate::frame::Rgb;

verus! {

/// The outcome of testing one ray against one primitive: whether the ray
/// meets the primitive, and the distance along the ray, as an ordinal. The
/// distance is that of the hit when `did_intersect` holds; on a miss it is
/// whatever the primitive solved for, and no query reads it.
#[derive(Clone, Copy, Debug, PartialEq, Eq, Structural)]
pub struct RayIntersection {
    pub did_intersect: bool,
    pub distance: i64,
}

/// A hit can be resolved when it is a hit at all, lies strictly in front of
/// the ray's origin and strictly nearer than the cutoff.
pub open spec fn resolvable(hit: RayIntersection, cutoff: i64) -> bool {
    hit.did_intersect && 0 < hit.distance && hit.distance < cutoff
}

/// `i` is the nearest resolvable hit of `hits`: no resolvable hit is nearer,
/// and every resolvable hit before `i` is strictly farther.
pub open spec fn is_nearest(hits: Seq<RayIntersection>, cutoff: i64, i: int) -> bool {
    &&& 0 <= i < hits.len()
    &&& resolvable(hits[i], cutoff)
    &&& forall|j: int|
        0 <= j < hits.len() && resolvable(#[trigger] hits[j], cutoff) ==> hits[i].distance
            <= hits[j].distance
    &&& forall|j: int|
        0 <= j < i && resolvable(#[trigger] hits[j], cutoff) ==> hits[i].distance
            < hits[j].distance
}

/// No hit of `hits` can be resolved.
pub open spec fn all_miss(hits: Seq<RayIntersection>, cutoff: i64) -> bool {
    forall|j: int| 0 <= j < hits.len() ==> !resolvable(#[trigger] hits[j], cutoff)
}

/// Scans the per-primitive intersections of one ray, given in the order in
/// which the primitives were added to the scene, and picks the index of the
/// nearest one that can be resolved. Of several hits at the same distance
/// the first wins. `None` means that the ray resolves to the background.
pub fn find_nearest(hits: &Vec<RayIntersection>, cutoff: i64) -> (nearest: Option<usize>)
    ensures
        match nearest {
            Some(i) => is_nearest(hits@, cutoff, i as int),
            None => all_miss(hits@, cutoff),
        },
{
    let mut best: Option<usize> = None;
    let mut best_distance: i64 = cutoff;
    let mut k: usize = 0;
    while k < hits.len()
        invariant
            k <= hits.len(),
            match best {
                Some(i) => is_nearest(hits@.take(k as int), cutoff, i as int) && best_distance
                    == hits@[i as int].distance,
                None => all_miss(hits@.take(k as int), cutoff) && best_distance == cutoff,
            },
        decreases hits.len() - k,
    {
        let hit = hits[k];
        let ghost before = hits@.take(k as int);
        let ghost after = hits@.take(k + 1);
        proof {
            assert(after =~= before.push(hit));
            assert(forall|j: int| 0 <= j < k ==> after[j] == before[j]);
        }
        if hit.did_intersect && 0 < hit.distance && hit.distance < best_distance {
            proof {
                assert(resolvable(hit, cutoff)) by {
                    match best {
                        Some(i) => {
                            assert(resolvable(before[i as int], cutoff));
                        },
                        None => {},
                    }
                }
            }
            best = Some(k);
            best_distance = hit.distance;
        }
        k += 1;
    }
    proof {
        assert(hits@.take(k as int) =~= hits@);
    }
    best
}

/// At most one index is the nearest hit, so `find_nearest` has one possible
/// answer on every input.
pub proof fn lemma_nearest_is_unique(hits: Seq<RayIntersection>, cutoff: i64, i: int, j: int)
    requires
        is_nearest(hits, cutoff, i),
        is_nearest(hits, cutoff, j),
    ensures
        i == j,
{
    if i < j {
        assert(resolvable(hits[i], cutoff));
    } else if j < i {
        assert(resolvable(hits[j], cutoff));
    }
}

/// Among the resolvable hits of a ray, one is the nearest.
pub proof fn lemma_nearest_exists(hits: Seq<RayIntersection>, cutoff: i64, j: int) -> (i: int)
    requires
        0 <= j < hits.len(),
        resolvable(hits[j], cutoff),
    ensures
        is_nearest(hits, cutoff, i),
        hits[i].distance <= hits[j].distance,
    decreases hits.len(),
{
    let shorter = hits.drop_last();
    let last = hits.len() - 1;
    if exists|k: int| 0 <= k < last && resolvable(#[trigger] hits[k], cutoff) {
        let k = choose|k: int| 0 <= k < last && resolvable(#[trigger] hits[k], cutoff);
        assert(shorter[k] == hits[k]);
        let b = lemma_nearest_exists(shorter, cutoff, k);
        assert(forall|m: int| 0 <= m < last ==> shorter[m] == hits[m]);
        if resolvable(hits[last], cutoff) && hits[last].distance < hits[b].distance {
            assert(forall|m: int|
                0 <= m < last && resolvable(#[trigger] hits[m], cutoff) ==> shorter[b].distance
                    <= shorter[m].distance);
            assert(is_nearest(hits, cutoff, last));
            last
        } else {
            assert(is_nearest(hits, cutoff, b)) by {
                assert(forall|m: int|
                    0 <= m < last && resolvable(#[trigger] hits[m], cutoff)
                        ==> shorter[b].distance <= shorter[m].distance);
                assert(forall|m: int|
                    0 <= m < b && resolvable(#[trigger] hits[m], cutoff) ==> shorter[b].distance
                        < shorter[m].distance);
            }
            if j < last {
                assert(resolvable(shorter[j], cutoff));
            }
            b
        }
    } else {
        assert(j == last);
        assert(is_nearest(hits, cutoff, last));
        last
    }
}

/// A ray that resolves to the background and a ray that resolves to a hit
/// are told apart: the two outcomes of `find_nearest` exclude each other.
pub proof fn lemma_nearest_excludes_miss(hits: Seq<RayIntersection>, cutoff: i64, i: int)
    requires
        is_nearest(hits, cutoff, i),
    ensures
        !all_miss(hits, cutoff),
{
    assert(resolvable(hits[i], cutoff));
}

/// Tie-break: when two primitives are hit at the same distance, the one
/// added later is never the answer.
pub proof fn lemma_first_added_wins(hits: Seq<RayIntersection>, cutoff: i64, first: int, later: int)
    requires
        0 <= first < later < hits.len(),
        resolvable(hits[first], cutoff),
        hits[first].distance == hits[later].distance,
    ensures
        !is_nearest(hits, cutoff, later),
{
}

/// Two primitives hit at the same distance, nearer than every other
/// resolvable hit: the one added first is the answer.
pub proof fn lemma_tie_goes_to_first(hits: Seq<RayIntersection>, cutoff: i64, first: int, later: int)
    requires
        0 <= first < later < hits.len(),
        resolvable(hits[first], cutoff),
        hits[first].distance == hits[later].distance,
        forall|j: int|
            0 <= j < hits.len() && j != first && j != later && resolvable(
                #[trigger] hits[j],
                cutoff,
            ) ==> hits[first].distance < hits[j].distance,
    ensures
        is_nearest(hits, cutoff, first),
{
}

/// A scene without primitives resolves every ray to the background.
pub proof fn lemma_empty_scene_misses(cutoff: i64)
    ensures
        all_miss(Seq::<RayIntersection>::empty(), cutoff),
        forall|i: int| !is_nearest(Seq::<RayIntersection>::empty(), cutoff, i),
{
}

/// What a scene is: its primitives and its lights, each in the order of
/// their addition, and its background color.
pub struct SceneView<P, L> {
    pub primitives: Seq<P>,
    pub lights: Seq<L>,
    pub background: Rgb,
}

/// Primitives, lights and a background color.
pub struct Scene<P, L> {
    primitives: Vec<P>,
    lights: Vec<L>,
    background: Rgb,
}

impl<P, L> View for Scene<P, L> {
    type V = SceneView<P, L>;

    closed spec fn view(&self) -> SceneView<P, L> {
        SceneView {
            primitives: self.primitives@,
            lights: self.lights@,
            background: self.background,
        }
    }
}

impl<P, L> Scene<P, L> {
    /// A scene without primitives and without lights.
    pub fn new(background: Rgb) -> (scene: Self)
        ensures
            scene@ == (SceneView::<P, L> {
                primitives: Seq::empty(),
                lights: Seq::empty(),
                background,
            }),
    {
        Scene { primitives: Vec::new(), lights: Vec::new(), background }
    }

    /// Adds a primitive behind those already there.
    pub fn add_primitive(&mut self, primitive: P)
        ensures
            final(self)@ == (SceneView {
                primitives: old(self)@.primitives.push(primitive),
                ..old(self)@
            }),
    {
        self.primitives.push(primitive);
    }

    /// Adds a light behind those already there.
    pub fn add_light(&mut self, light: L)
        ensures
            final(self)@ == (SceneView { lights: old(self)@.lights.push(light), ..old(self)@ }),
    {
        self.lights.push(light);
    }

    /// The primitives, in the order of their addition.
    pub fn primitives(&self) -> (primitives: &Vec<P>)
        ensures
            primitives@ == self@.primitives,
    {
        &self.primitives
    }

    /// The lights, in the order of their addition.
    pub fn lights(&self) -> (lights: &Vec<L>)
        ensures
            lights@ == self@.lights,
    {
        &self.lights
    }

    /// The color of a ray that hits nothing.
    pub fn background(&self) -> (background: Rgb)
        ensures
            background == self@.background,
    {
        self.background
    }

    /// The primitive that a ray hits first. `hits` holds the intersection of
    /// the ray with each primitive of the scene, in the order of the
    /// primitives. Of several primitives hit at the same distance, the one
    /// added first is the answer.
    pub fn nearest_primitive(&self, hits: &Vec<RayIntersection>, cutoff: i64) -> (nearest: Option<
        (usize, &P),
    >)
        requires
            hits@.len() == self@.primitives.len(),
        ensures
            match nearest {
                Some((i, primitive)) => is_nearest(hits@, cutoff, i as int) && *primitive
                    == self@.primitives[i as int],
                None => all_miss(hits@, cutoff),
            },
    {
        match find_nearest(hits, cutoff) {
            Some(i) => Some((i, &self.primitives[i])),
            None => None,
        }
    }
}

} // verus!
