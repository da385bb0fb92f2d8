//! Shapes of the scene: what kind each is, what it carries, and how the
//! distances at which a ray crosses it become intersection records.

pub mod sphere;

use vstd::prelude::*;
use crate::intersection::Intersection;

verus! {

/// The kinds of shape.
#[derive(Clone, Copy, Debug, PartialEq, Eq, Structural)]
pub enum ShapeType {
    /// The plane through the origin whose normal is the y axis.
    Plane,
    /// The unit sphere at the origin.
    Sphere,
    /// A shape that no ray crosses.
    TestShape,
}

/// A shape: its kind, its material, the transform from its own space to the
/// scene's, and that transform's inverse.
#[derive(Clone, Debug)]
pub struct Shape<A, M> {
    pub shape_type: ShapeType,
    pub material: A,
    pub transform: M,
    pub inverse: M,
}

/// The records of one shape's crossings: each distance, in order, with the
/// shape's position in the scene.
pub open spec fn tagged(roots: Seq<i64>, object: usize) -> Seq<Intersection> {
    Seq::new(roots.len(), |k: int| (Intersection { t: roots[k], object }))
}

impl<A, M: Copy> Shape<A, M> {
    /// A shape of the given kind and material, placed by `identity`, which
    /// is its own inverse.
    pub fn new(shape_type: ShapeType, material: A, identity: M) -> (s: Self)
        ensures
            s.shape_type == shape_type,
            s.material == material,
            s.transform == identity,
            s.inverse == identity,
    {
        Shape { shape_type, material, transform: identity, inverse: identity }
    }

    /// A shape that no ray crosses.
    pub fn test_shape(material: A, identity: M) -> (s: Self)
        ensures
            s.shape_type == ShapeType::TestShape,
            s.material == material,
            s.transform == identity,
            s.inverse == identity,
    {
        Self::new(ShapeType::TestShape, material, identity)
    }

    /// A plane.
    pub fn plane(material: A, identity: M) -> (s: Self)
        ensures
            s.shape_type == ShapeType::Plane,
            s.material == material,
            s.transform == identity,
            s.inverse == identity,
    {
        Self::new(ShapeType::Plane, material, identity)
    }

    /// A sphere.
    pub fn sphere(material: A, identity: M) -> (s: Self)
        ensures
            s.shape_type == ShapeType::Sphere,
            s.material == material,
            s.transform == identity,
            s.inverse == identity,
    {
        Self::new(ShapeType::Sphere, material, identity)
    }

    /// The same shape made of `material`.
    pub fn material(self, material: A) -> (s: Self)
        ensures
            s.shape_type == self.shape_type,
            s.material == material,
            s.transform == self.transform,
            s.inverse == self.inverse,
    {
        Shape { material, ..self }
    }

    /// The same shape placed by `transform`, whose inverse is `inverse`.
    /// Both are replaced together, so neither is ever left from an earlier
    /// placement.
    pub fn transform(self, transform: M, inverse: M) -> (s: Self)
        ensures
            s.shape_type == self.shape_type,
            s.material == self.material,
            s.transform == transform,
            s.inverse == inverse,
    {
        Shape { transform, inverse, ..self }
    }

    /// The records of this shape's crossings with a ray. `roots` holds the
    /// distances at which the ray crosses it and `object` is the shape's
    /// position in the scene.
    pub fn intersects(&self, roots: &[i64], object: usize) -> (xs: Vec<Intersection>)
        ensures
            xs@ == tagged(roots@, object),
    {
        let mut xs: Vec<Intersection> = Vec::new();
        let mut r: usize = 0;
        while r < roots.len()
            invariant
                r <= roots.len(),
                xs@ == tagged(roots@, object).take(r as int),
            decreases roots.len() - r,
        {
            xs.push(Intersection { t: roots[r], object });
            proof {
                let all = tagged(roots@, object);
                assert(all.take(r + 1) =~= all.take(r as int).push(all[r as int]));
            }
            r += 1;
        }
        proof {
            let all = tagged(roots@, object);
            assert(all.take(r as int) =~= all);
        }
        xs
    }
}

} // verus!
