use raytracer::scene::{find_nearest, RayIntersection};
use raytracer::shading::in_shadow;

fn hit(distance: i64) -> RayIntersection {
    RayIntersection { did_intersect: true, distance }
}

fn no_hit() -> RayIntersection {
    RayIntersection { did_intersect: false, distance: 0 }
}

#[test]
fn nearest_of_empty_scene_is_none() {
    assert_eq!(find_nearest(&vec![], 1000), None);
}

#[test]
fn nearest_picks_minimum_distance() {
    let hits = vec![hit(40), hit(12), no_hit(), hit(25)];
    assert_eq!(find_nearest(&hits, 1000), Some(1));
}

#[test]
fn nearest_tie_goes_to_first_added() {
    let hits = vec![hit(30), hit(7), hit(7), hit(9)];
    assert_eq!(find_nearest(&hits, 1000), Some(1));
    let swapped = vec![hit(7), hit(30), hit(7)];
    assert_eq!(find_nearest(&swapped, 1000), Some(0));
}

#[test]
fn nearest_ignores_misses_even_when_their_distance_is_small() {
    let hits = vec![
        RayIntersection { did_intersect: false, distance: 1 },
        hit(500),
    ];
    assert_eq!(find_nearest(&hits, 1000), Some(1));
}

#[test]
fn nearest_treats_distances_at_or_beyond_cutoff_as_miss() {
    assert_eq!(find_nearest(&vec![hit(1000)], 1000), None);
    assert_eq!(find_nearest(&vec![hit(5000), hit(i64::MAX)], 1000), None);
    assert_eq!(find_nearest(&vec![hit(999)], 1000), Some(0));
}

#[test]
fn nearest_requires_positive_distance() {
    assert_eq!(find_nearest(&vec![hit(0)], 1000), None);
    assert_eq!(find_nearest(&vec![hit(-3), hit(0), hit(1)], 1000), Some(2));
}

#[test]
fn nearest_with_nonpositive_cutoff_resolves_nothing() {
    assert_eq!(find_nearest(&vec![hit(1), hit(2)], 0), None);
    assert_eq!(find_nearest(&vec![hit(1), hit(2)], -5), None);
}

#[test]
fn blocked_light_is_in_shadow() {
    // A primitive at distance 10 between the point and a light at distance 50.
    let hits = vec![no_hit(), hit(10), hit(80)];
    assert!(in_shadow(&hits, 1000, 50));
}

#[test]
fn unblocked_light_is_not_in_shadow() {
    // The only primitive along the shadow ray lies behind the light.
    let hits = vec![no_hit(), hit(80)];
    assert!(!in_shadow(&hits, 1000, 50));
    assert!(!in_shadow(&vec![], 1000, 50));
    assert!(!in_shadow(&vec![no_hit(), no_hit()], 1000, 50));
}

#[test]
fn blocker_at_the_light_distance_does_not_shadow() {
    assert!(!in_shadow(&vec![hit(50)], 1000, 50));
    assert!(in_shadow(&vec![hit(49)], 1000, 50));
}

#[test]
fn blocker_beyond_cutoff_does_not_shadow() {
    assert!(!in_shadow(&vec![hit(2000)], 1000, 5000));
}

#[test]
fn blocked_light_has_no_terms() {
    let hits = vec![hit(10)];
    assert_eq!(raytracer::shading::light_terms(&hits, 1000, 50, 700, 900), None);
}

#[test]
fn unblocked_facing_light_has_positive_diffuse_term() {
    let hits = vec![hit(80), no_hit()];
    let terms = raytracer::shading::light_terms(&hits, 1000, 50, 700, 900).unwrap();
    assert_eq!(terms.diffuse, 700);
    assert!(terms.diffuse > 0);
    assert_eq!(terms.specular, 900);
}

#[test]
fn light_behind_the_surface_has_zero_terms() {
    let terms = raytracer::shading::light_terms(&vec![], 1000, 50, -700, -1).unwrap();
    assert_eq!(terms.diffuse, 0);
    assert_eq!(terms.specular, 0);
    let grazing = raytracer::shading::light_terms(&vec![], 1000, 50, 0, 3).unwrap();
    assert_eq!(grazing.diffuse, 0);
    assert_eq!(grazing.specular, 3);
}

#[test]
fn shadow_ray_starts_on_the_side_of_the_light() {
    assert!(raytracer::shading::offset_along_normal(5));
    assert!(raytracer::shading::offset_along_normal(0));
    assert!(!raytracer::shading::offset_along_normal(-1));
}

#[test]
fn scene_keeps_the_order_of_addition() {
    let sky = raytracer::frame::Rgb { r: 51, g: 178, b: 204 };
    let mut scene: raytracer::scene::Scene<&str, u8> = raytracer::scene::Scene::new(sky);
    assert!(scene.primitives().is_empty());
    assert!(scene.lights().is_empty());
    scene.add_primitive("ball");
    scene.add_light(7);
    scene.add_primitive("floor");
    scene.add_light(9);
    assert_eq!(scene.primitives(), &vec!["ball", "floor"]);
    assert_eq!(scene.lights(), &vec![7, 9]);
    assert_eq!(scene.background(), sky);
}

#[test]
fn scene_returns_the_primitive_added_first_on_a_tie() {
    let sky = raytracer::frame::Rgb { r: 51, g: 178, b: 204 };
    let mut scene: raytracer::scene::Scene<&str, u8> = raytracer::scene::Scene::new(sky);
    scene.add_primitive("far");
    scene.add_primitive("first");
    scene.add_primitive("second");
    let hits = vec![hit(90), hit(15), hit(15)];
    assert_eq!(scene.nearest_primitive(&hits, 1000), Some((1, &"first")));
    let hits = vec![hit(15), hit(15), hit(15)];
    assert_eq!(scene.nearest_primitive(&hits, 1000), Some((0, &"far")));
    let hits = vec![no_hit(), no_hit(), hit(15)];
    assert_eq!(scene.nearest_primitive(&hits, 1000), Some((2, &"second")));
}

#[test]
fn scene_without_primitives_resolves_nothing() {
    let sky = raytracer::frame::Rgb { r: 51, g: 178, b: 204 };
    let scene: raytracer::scene::Scene<&str, u8> = raytracer::scene::Scene::new(sky);
    assert_eq!(scene.nearest_primitive(&vec![], 1000), None);
}
