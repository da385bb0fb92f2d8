use raytracer::geom::sphere::Sphere;
use raytracer::geom::{Shape, ShapeType};
use raytracer::intersection::Intersection;

#[derive(Clone, Copy, Debug, PartialEq)]
struct Finish {
    ambient: f64,
}

const PLAIN: Finish = Finish { ambient: 0.1 };
const IDENTITY: [f64; 2] = [1.0, 1.0];

#[test]
fn testshape_has_default_material() {
    let s = Shape::test_shape(PLAIN, IDENTITY);
    assert_eq!(PLAIN, s.material);
}

#[test]
fn test_shape_can_be_assigned_material() {
    let m = Finish { ambient: 1.0 };
    let s = Shape::test_shape(PLAIN, IDENTITY).material(m.clone());
    assert_eq!(m, s.material);
}

#[test]
fn test_sphere_default_transform() {
    let s = Shape::test_shape(PLAIN, IDENTITY);
    assert_eq!(IDENTITY, s.transform);
}

#[test]
fn test_shape_can_have_transform_applied() {
    let m = [2.0, 4.0];
    let s = Shape::test_shape(PLAIN, IDENTITY).transform(m, [0.5, 0.25]);
    assert_eq!(m, s.transform);
    assert_eq!([0.5, 0.25], s.inverse);
}

#[test]
fn shapes_are_of_the_kind_they_were_made_as() {
    assert_eq!(ShapeType::Sphere, Shape::sphere(PLAIN, IDENTITY).shape_type);
    assert_eq!(ShapeType::Plane, Shape::plane(PLAIN, IDENTITY).shape_type);
    assert_eq!(ShapeType::TestShape, Shape::test_shape(PLAIN, IDENTITY).shape_type);
    assert_eq!(ShapeType::Plane, Shape::new(ShapeType::Plane, PLAIN, IDENTITY).shape_type);
}

#[test]
fn material_and_placement_do_not_touch_each_other() {
    let s = Shape::plane(PLAIN, IDENTITY).transform([3.0, 3.0], [9.0, 9.0]).material(
        Finish { ambient: 0.5 },
    );
    assert_eq!(ShapeType::Plane, s.shape_type);
    assert_eq!([3.0, 3.0], s.transform);
    assert_eq!([9.0, 9.0], s.inverse);
    assert_eq!(0.5, s.material.ambient);
}

#[test]
fn crossings_are_tagged_with_the_shape() {
    let s = Shape::sphere(PLAIN, IDENTITY);
    let xs = s.intersects(&vec![40, 60], 3);
    assert_eq!(
        vec![Intersection { t: 40, object: 3 }, Intersection { t: 60, object: 3 }],
        xs
    );
    assert!(s.intersects(&Vec::new(), 0).is_empty());
}

#[test]
fn unit_sphere_has_no_parameters() {
    assert_eq!(Sphere::new(), Sphere {});
}
