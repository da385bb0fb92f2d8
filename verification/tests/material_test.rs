use raytracer::material::{lighting_terms, Material, Terms};
use raytracer::pattern::{Pattern, PatternType};

type Color = (f64, f64, f64);

fn default_material() -> Material<f64, Pattern<Color, u8>> {
    Material::new(Pattern::solid((1.0, 1.0, 1.0), 1), 0.1, 0.9, 0.9, 200.0)
}

#[test]
fn material_has_the_weights_it_was_made_with() {
    let m = default_material();
    assert_eq!(0.1, m.ambient);
    assert_eq!(0.9, m.diffuse);
    assert_eq!(0.9, m.specular);
    assert_eq!(200.0, m.shininess);
    assert!(matches!(m.pattern.pattern_type, PatternType::Solid(c) if c == (1.0, 1.0, 1.0)));
}

#[test]
fn each_builder_changes_one_weight() {
    let m = default_material().ambient(1.0);
    assert_eq!((1.0, 0.9, 0.9, 200.0), (m.ambient, m.diffuse, m.specular, m.shininess));
    let m = default_material().diffuse(0.7);
    assert_eq!((0.1, 0.7, 0.9, 200.0), (m.ambient, m.diffuse, m.specular, m.shininess));
    let m = default_material().specular(0.2);
    assert_eq!((0.1, 0.9, 0.2, 200.0), (m.ambient, m.diffuse, m.specular, m.shininess));
    let m = default_material().shininess(10.0);
    assert_eq!((0.1, 0.9, 0.9, 10.0), (m.ambient, m.diffuse, m.specular, m.shininess));
}

#[test]
fn color_makes_the_pattern_solid() {
    let m = default_material().pattern(Pattern::stripe((0.0, 0.0, 0.0), (1.0, 1.0, 1.0), 1));
    assert!(matches!(m.pattern.pattern_type, PatternType::Stripe(_, _)));
    let m = m.color((0.8, 1.0, 0.6), 1).diffuse(0.7).specular(0.2);
    assert!(matches!(m.pattern.pattern_type, PatternType::Solid(c) if c == (0.8, 1.0, 0.6)));
    assert_eq!(1, m.pattern.transform);
    assert_eq!((0.1, 0.7, 0.2, 200.0), (m.ambient, m.diffuse, m.specular, m.shininess));
}

#[test]
fn eye_between_light_and_surface_gets_all_terms() {
    assert_eq!(Terms { diffuse: true, specular: true }, lighting_terms(false, 1, 1));
}

#[test]
fn eye_off_the_reflection_gets_no_highlight() {
    assert_eq!(Terms { diffuse: true, specular: false }, lighting_terms(false, 1, 0));
    assert_eq!(Terms { diffuse: true, specular: false }, lighting_terms(false, 1, -1));
}

#[test]
fn light_behind_the_surface_gives_ambient_only() {
    assert_eq!(Terms { diffuse: false, specular: false }, lighting_terms(false, -1, 1));
    assert_eq!(Terms { diffuse: false, specular: false }, lighting_terms(false, i64::MIN, -1));
}

#[test]
fn grazing_light_still_counts_as_lit() {
    assert_eq!(Terms { diffuse: true, specular: true }, lighting_terms(false, 0, 5));
    assert_eq!(Terms { diffuse: true, specular: false }, lighting_terms(false, 0, 0));
}

#[test]
fn surface_in_shadow_gets_ambient_only() {
    for ldn in [-1, 0, 1] {
        for rde in [-1, 0, 1] {
            assert_eq!(Terms { diffuse: false, specular: false }, lighting_terms(true, ldn, rde));
        }
    }
}
