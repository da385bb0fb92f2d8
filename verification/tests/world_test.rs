use raytracer::geom::Shape;
use raytracer::intersection::{hit, Intersection};
use raytracer::world::{sort_by_distance, World};

/// An integer that is ordered as the distances are, with the sign of the
/// distance.
fn key(t: f64) -> i64 {
    assert!(!t.is_nan());
    let bits = (t + 0.0).to_bits() as i64;
    if bits < 0 {
        bits ^ i64::MAX
    } else {
        bits
    }
}

fn two_spheres() -> World<u8, u8, u8> {
    World { light: 0, objects: vec![Shape::sphere(0, 1), Shape::sphere(0, 1)] }
}

fn keys(ts: &[f64]) -> Vec<i64> {
    ts.iter().map(|&t| key(t)).collect()
}

#[test]
fn keys_are_ordered_as_distances() {
    let ts = [-6.0, -1.0, -1e-9, 0.0, 1e-9, 0.5, 4.0, 4.5, 1e12];
    for w in ts.windows(2) {
        assert!(key(w[0]) < key(w[1]));
    }
    assert_eq!(0, key(0.0));
    assert_eq!(0, key(-0.0));
    assert!(key(-1e-300) < 0);
    assert!(key(1e-300) > 0);
}

#[test]
fn intersect_world() {
    let w = two_spheres();
    let xs = w.intersect(&vec![keys(&[4.0, 6.0]), keys(&[4.5, 5.5])]);
    assert_eq!(4, xs.len());
    assert_eq!(key(4.0), xs[0].t);
    assert_eq!(key(4.5), xs[1].t);
    assert_eq!(key(5.5), xs[2].t);
    assert_eq!(key(6.0), xs[3].t);
    assert_eq!(vec![0, 1, 1, 0], xs.iter().map(|x| x.object).collect::<Vec<usize>>());
}

#[test]
fn intersect_world_without_crossings() {
    let w = two_spheres();
    assert!(w.intersect(&vec![Vec::new(), Vec::new()]).is_empty());
    let empty: World<u8, u8, u8> = World { light: 0, objects: Vec::new() };
    assert!(empty.intersect(&Vec::new()).is_empty());
    assert_eq!(None, empty.first_hit(&Vec::new()));
}

#[test]
fn no_shadow_when_nothing_between_point_and_light() {
    let w = two_spheres();
    let xs = w.intersect(&vec![Vec::new(), Vec::new()]);
    assert_eq!(false, w.is_shadowed(&xs, key(14.1421)));
}

#[test]
fn shadow_when_there_is_object_between_point_and_light() {
    let w = two_spheres();
    let xs = w.intersect(&vec![keys(&[16.3, 18.3]), keys(&[16.8, 17.8])]);
    assert_eq!(true, w.is_shadowed(&xs, key(34.641)));
}

#[test]
fn no_shadow_when_object_is_behind_the_light() {
    let w = two_spheres();
    let xs = w.intersect(&vec![keys(&[29.0, 31.0]), Vec::new()]);
    assert_eq!(false, w.is_shadowed(&xs, key(10.0)));
}

#[test]
fn no_shadow_when_object_is_behind_the_point() {
    let w = two_spheres();
    let xs = w.intersect(&vec![keys(&[-12.0, -10.0]), keys(&[-3.0, 0.0])]);
    assert_eq!(false, w.is_shadowed(&xs, key(10.0)));
}

#[test]
fn crossing_at_the_light_casts_no_shadow() {
    let w = two_spheres();
    let xs = vec![Intersection { t: key(10.0), object: 0 }];
    assert_eq!(false, w.is_shadowed(&xs, key(10.0)));
    let xs = vec![Intersection { t: key(9.999), object: 0 }];
    assert_eq!(true, w.is_shadowed(&xs, key(10.0)));
}

#[test]
fn ray_sees_the_nearest_crossing_in_front() {
    let w = two_spheres();
    let seen = w.first_hit(&vec![keys(&[-6.0, 6.0]), keys(&[4.5, 5.5])]);
    assert_eq!(Some(Intersection { t: key(4.5), object: 1 }), seen);
    let seen = w.first_hit(&vec![keys(&[-6.0, -4.0]), keys(&[-5.5, -4.5])]);
    assert_eq!(None, seen);
    let seen = w.first_hit(&vec![keys(&[-1.0, 1.0]), keys(&[-0.5, 0.5])]);
    assert_eq!(Some(Intersection { t: key(0.5), object: 1 }), seen);
}

#[test]
fn sorting_keeps_every_crossing() {
    let mut xs: Vec<Intersection> = [5, -2, 9, 5, 0, -7, 3]
        .iter()
        .enumerate()
        .map(|(object, &t)| Intersection { t, object })
        .collect();
    let before = xs.clone();
    sort_by_distance(&mut xs);
    assert_eq!(vec![-7, -2, 0, 3, 5, 5, 9], xs.iter().map(|x| x.t).collect::<Vec<i64>>());
    for x in &before {
        assert!(xs.contains(x));
    }
    assert_eq!(before.len(), xs.len());
    assert_eq!(xs[hit(&xs).unwrap()].t, before[hit(&before).unwrap()].t);
}

#[test]
fn sorting_short_lists() {
    let mut xs: Vec<Intersection> = Vec::new();
    sort_by_distance(&mut xs);
    assert!(xs.is_empty());
    let mut xs = vec![Intersection { t: 1, object: 0 }];
    sort_by_distance(&mut xs);
    assert_eq!(vec![Intersection { t: 1, object: 0 }], xs);
    let mut xs = vec![Intersection { t: 2, object: 0 }, Intersection { t: 1, object: 1 }];
    sort_by_distance(&mut xs);
    assert_eq!(vec![Intersection { t: 1, object: 1 }, Intersection { t: 2, object: 0 }], xs);
}
