use raytracer::object::{line_passes_outside, plane_ray_intersect, sphere_ray_intersect};
use raytracer::ordinal::from_bits;
use raytracer::scene::RayIntersection;

fn ordinal(v: f32) -> i64 {
    from_bits(v.to_bits())
}

fn dot(a: [f32; 3], b: [f32; 3]) -> f32 {
    a[0] * b[0] + a[1] * b[1] + a[2] * b[2]
}

fn sub(a: [f32; 3], b: [f32; 3]) -> [f32; 3] {
    [a[0] - b[0], a[1] - b[1], a[2] - b[2]]
}

fn sphere(center: [f32; 3], radius: f32, origin: [f32; 3], direction: [f32; 3]) -> RayIntersection {
    let l = sub(center, origin);
    let tca = dot(l, direction);
    let d2 = dot(l, l) - tca * tca;
    let r2 = radius * radius;
    let thc = (r2 - d2).sqrt();
    sphere_ray_intersect(ordinal(d2), ordinal(r2), ordinal(tca - thc), ordinal(tca + thc))
}

fn plane(point: [f32; 3], normal: [f32; 3], origin: [f32; 3], direction: [f32; 3]) -> RayIntersection {
    let denom = dot(normal, direction);
    let t = dot(sub(point, origin), normal) / denom;
    plane_ray_intersect(ordinal(denom), ordinal(0.0000001), ordinal(t))
}

#[test]
fn sphere_at_origin_hit_head_on() {
    for radius in [1.0f32, 2.0, 0.5, 4.0] {
        let outcome = sphere([0., 0., 0.], radius, [0., 0., 5.], [0., 0., -1.]);
        assert!(outcome.did_intersect);
        assert_eq!(outcome.distance, ordinal(5.0 - radius));
    }
}

#[test]
fn sphere_passed_by_is_missed() {
    let outcome = sphere([0., 3., 0.], 1.0, [0., 0., 5.], [0., 0., -1.]);
    assert_eq!(outcome, RayIntersection { did_intersect: false, distance: 0 });
    assert_eq!(sphere_ray_intersect(10, 9, 4, 6), RayIntersection { did_intersect: false, distance: 0 });
    assert!(line_passes_outside(10, 9));
    assert!(!line_passes_outside(9, 9));
    assert!(!line_passes_outside(-1, 9));
}

#[test]
fn sphere_from_inside_uses_far_root() {
    let outcome = sphere([0., 0., 0.], 2.0, [0., 0., 0.], [0., 0., -1.]);
    assert!(outcome.did_intersect);
    assert_eq!(outcome.distance, ordinal(2.0));
    assert_eq!(sphere_ray_intersect(0, 9, -3, 5), RayIntersection { did_intersect: true, distance: 5 });
}

#[test]
fn sphere_behind_the_origin_is_missed() {
    let outcome = sphere([0., 0., 10.], 1.0, [0., 0., 5.], [0., 0., -1.]);
    assert!(!outcome.did_intersect);
    assert_eq!(outcome.distance, ordinal(-4.0));
    assert_eq!(sphere_ray_intersect(0, 9, -8, -2), RayIntersection { did_intersect: false, distance: -2 });
}

#[test]
fn sphere_grazed_counts_as_hit() {
    assert_eq!(sphere_ray_intersect(9, 9, 4, 4), RayIntersection { did_intersect: true, distance: 4 });
}

#[test]
fn sphere_touching_the_origin_hits_at_zero() {
    assert_eq!(sphere_ray_intersect(0, 9, 0, 6), RayIntersection { did_intersect: true, distance: 0 });
    assert_eq!(sphere_ray_intersect(0, 9, -6, 0), RayIntersection { did_intersect: true, distance: 0 });
}

#[test]
fn plane_hit_from_above() {
    let outcome = plane([0., 0., 0.], [0., 1., 0.], [0., 5., 0.], [0., -1., 0.]);
    assert!(outcome.did_intersect);
    assert_eq!(outcome.distance, ordinal(5.0));
}

#[test]
fn plane_parallel_ray_never_hits() {
    let outcome = plane([0., 0., 0.], [0., 1., 0.], [0., 5., 0.], [1., 0., 0.]);
    assert!(!outcome.did_intersect);
    assert_eq!(plane_ray_intersect(0, 3, 100), RayIntersection { did_intersect: false, distance: 0 });
    assert_eq!(plane_ray_intersect(2, 3, 100), RayIntersection { did_intersect: false, distance: 0 });
    assert_eq!(plane_ray_intersect(-2, 3, 100), RayIntersection { did_intersect: false, distance: 0 });
}

#[test]
fn plane_at_epsilon_is_not_parallel() {
    assert_eq!(plane_ray_intersect(3, 3, 100), RayIntersection { did_intersect: true, distance: 100 });
    assert_eq!(plane_ray_intersect(-3, 3, 100), RayIntersection { did_intersect: true, distance: 100 });
}

#[test]
fn plane_behind_the_origin_is_missed() {
    let outcome = plane([0., 0., 0.], [0., 1., 0.], [0., 5., 0.], [0., 1., 0.]);
    assert!(!outcome.did_intersect);
    assert_eq!(outcome.distance, ordinal(-5.0));
    assert_eq!(plane_ray_intersect(-50, 3, -1), RayIntersection { did_intersect: false, distance: -1 });
    assert_eq!(plane_ray_intersect(50, 3, i64::MIN), RayIntersection { did_intersect: false, distance: i64::MIN });
}

#[test]
fn plane_with_nonpositive_epsilon_has_no_parallel_rays() {
    assert_eq!(plane_ray_intersect(0, 0, 7), RayIntersection { did_intersect: true, distance: 7 });
    assert_eq!(plane_ray_intersect(0, i64::MIN, 7), RayIntersection { did_intersect: true, distance: 7 });
}
