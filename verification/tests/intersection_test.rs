use raytracer::intersection::{hit, Intersection};

fn crossings(ts: &[i64]) -> Vec<Intersection> {
    ts.iter().map(|&t| Intersection { t, object: 0 }).collect()
}

#[test]
fn hit_when_all_intersections_are_positive() {
    let is = crossings(&[1, 2]);
    assert_eq!(Some(0), hit(&is));
}

#[test]
fn hit_when_some_intersections_are_negative() {
    let is = crossings(&[-1, 1]);
    assert_eq!(Some(1), hit(&is));
}

#[test]
fn hit_when_all_intersections_are_negative() {
    let is = crossings(&[-1, -2]);
    assert_eq!(None, hit(&is));
}

#[test]
fn the_hit_is_always_the_lowest_non_negative_intersection() {
    let is = crossings(&[5, 7, -3, 2]);
    let found = hit(&is).unwrap();
    assert_eq!(3, found);
    assert_eq!(2, is[found].t);
}

#[test]
fn hit_of_nothing_is_nothing() {
    assert_eq!(None, hit(&Vec::new()));
}

#[test]
fn crossing_at_the_origin_is_no_hit() {
    let is = crossings(&[0, -4]);
    assert_eq!(None, hit(&is));
    let is = crossings(&[0, 9]);
    assert_eq!(Some(1), hit(&is));
}

#[test]
fn hit_among_equal_distances_is_the_last() {
    let is = vec![
        Intersection { t: 5, object: 0 },
        Intersection { t: 5, object: 1 },
        Intersection { t: 8, object: 2 },
    ];
    assert_eq!(Some(1), hit(&is));
}

#[test]
fn hit_distance_does_not_depend_on_order() {
    let a = crossings(&[9, 3, -1, 7]);
    let b = crossings(&[-1, 7, 9, 3]);
    assert_eq!(a[hit(&a).unwrap()].t, b[hit(&b).unwrap()].t);
}
