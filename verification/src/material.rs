//! Surface finish, and the rule that says which terms of the lighting sum a
//! point receives.

use vstd::prelude::*;
use crate::pattern::{Pattern, PatternType};

verus! {

/// A surface finish: the pattern that colours it and the weights of the
/// ambient, diffuse and specular terms, with the exponent of the highlight.
#[derive(Clone, Debug)]
pub struct Material<S, P> {
    pub pattern: P,
    pub ambient: S,
    pub diffuse: S,
    pub specular: S,
    pub shininess: S,
}

/// Which terms besides the ambient one a point receives.
#[derive(Clone, Copy, Debug, PartialEq, Eq, Structural)]
pub struct Terms {
    /// The diffuse term counts.
    pub diffuse: bool,
    /// The specular term counts.
    pub specular: bool,
}

/// The terms that the lighting rule grants. A point in shadow gets the
/// ambient term alone, and so does one whose surface faces away from the
/// light. A lit point gets the diffuse term, and the specular term too where
/// the reflected light heads towards the eye.
pub open spec fn terms_for(in_shadow: bool, light_dot_normal: int, reflect_dot_eye: int) -> Terms {
    if in_shadow || light_dot_normal < 0 {
        Terms { diffuse: false, specular: false }
    } else {
        Terms { diffuse: true, specular: reflect_dot_eye > 0 }
    }
}

/// The terms of the lighting sum for one point. `light_dot_normal` has the
/// sign of the cosine between the direction to the light and the normal,
/// `reflect_dot_eye` that of the cosine between the reflected light and the
/// direction to the eye; only the signs are read.
pub fn lighting_terms(in_shadow: bool, light_dot_normal: i64, reflect_dot_eye: i64) -> (terms:
    Terms)
    ensures
        terms == terms_for(in_shadow, light_dot_normal as int, reflect_dot_eye as int),
{
    if in_shadow {
        Terms { diffuse: false, specular: false }
    } else if light_dot_normal >= 0 {
        Terms { diffuse: true, specular: reflect_dot_eye > 0 }
    } else {
        Terms { diffuse: false, specular: false }
    }
}

/// No point receives the specular term without the diffuse one, and a point
/// in shadow receives neither.
pub proof fn lemma_terms_nest(in_shadow: bool, light_dot_normal: int, reflect_dot_eye: int)
    ensures
        terms_for(in_shadow, light_dot_normal, reflect_dot_eye).specular ==> terms_for(
            in_shadow,
            light_dot_normal,
            reflect_dot_eye,
        ).diffuse,
        in_shadow ==> terms_for(in_shadow, light_dot_normal, reflect_dot_eye) == (Terms {
            diffuse: false,
            specular: false,
        }),
{
}

impl<S, P> Material<S, P> {
    /// A finish with the given pattern and weights.
    pub fn new(pattern: P, ambient: S, diffuse: S, specular: S, shininess: S) -> (m: Self)
        ensures
            m.pattern == pattern,
            m.ambient == ambient,
            m.diffuse == diffuse,
            m.specular == specular,
            m.shininess == shininess,
    {
        Material { pattern, ambient, diffuse, specular, shininess }
    }

    /// The same finish with another ambient weight.
    pub fn ambient(self, ambient: S) -> (m: Self)
        ensures
            m.pattern == self.pattern,
            m.ambient == ambient,
            m.diffuse == self.diffuse,
            m.specular == self.specular,
            m.shininess == self.shininess,
    {
        Material { ambient, ..self }
    }

    /// The same finish with another diffuse weight.
    pub fn diffuse(self, diffuse: S) -> (m: Self)
        ensures
            m.pattern == self.pattern,
            m.ambient == self.ambient,
            m.diffuse == diffuse,
            m.specular == self.specular,
            m.shininess == self.shininess,
    {
        Material { diffuse, ..self }
    }

    /// The same finish with another pattern.
    pub fn pattern(self, pattern: P) -> (m: Self)
        ensures
            m.pattern == pattern,
            m.ambient == self.ambient,
            m.diffuse == self.diffuse,
            m.specular == self.specular,
            m.shininess == self.shininess,
    {
        Material { pattern, ..self }
    }

    /// The same finish with another specular weight.
    pub fn specular(self, specular: S) -> (m: Self)
        ensures
            m.pattern == self.pattern,
            m.ambient == self.ambient,
            m.diffuse == self.diffuse,
            m.specular == specular,
            m.shininess == self.shininess,
    {
        Material { specular, ..self }
    }

    /// The same finish with another exponent of the highlight.
    pub fn shininess(self, shininess: S) -> (m: Self)
        ensures
            m.pattern == self.pattern,
            m.ambient == self.ambient,
            m.diffuse == self.diffuse,
            m.specular == self.specular,
            m.shininess == shininess,
    {
        Material { shininess, ..self }
    }
}

impl<S, C, M: Copy> Material<S, Pattern<C, M>> {
    /// The same finish in one colour everywhere: its pattern becomes the
    /// solid pattern of `color`, placed by `identity`.
    pub fn color(self, color: C, identity: M) -> (m: Self)
        ensures
            m.pattern.pattern_type == PatternType::<C, M>::Solid(color),
            m.pattern.transform == identity,
            m.pattern.inverse_transform == identity,
            m.ambient == self.ambient,
            m.diffuse == self.diffuse,
            m.specular == self.specular,
            m.shininess == self.shininess,
    {
        Material { pattern: Pattern::solid(color, identity), ..self }
    }
}

} // verus!
