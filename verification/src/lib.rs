//! The exact core of a small ray tracer.
//!
//! Everything here is free of rounding: the rules that decide which surface
//! a ray sees and whether a point lies in shadow, the terms that the lighting
//! sum receives, the cell of a procedural pattern that shows one child or the
//! other, the layout of a raster and its text as PPM, and matrices as grids
//! that are transposed and cut into minors. Distances are carried as ordered
//! integer keys, and containers are generic in the numbers, colours and
//! matrices that they hold, so that a renderer may fill them with
//! floating-point values.
//!
//! On matrices of integers the arithmetic is here as well, exactly:
//! products, determinants, cofactors and inverses as fractions, together with
//! the proofs that a matrix and its inverse undo each other.

pub mod camera;
pub mod canvas;
pub mod exact;
pub mod geom;
pub mod intersection;
pub mod material;
pub mod matrix;
pub mod pattern;
pub mod transform;
pub mod world;
