//! The named affine transforms on matrices of integers, and chaining them.
//!
//! A chained call puts its transform in front of the matrix it is called on:
//! `m.scale(..).translate(..)` is the matrix that does what `m` does, then
//! scales, then translates.

use vstd::prelude::*;
use crate::exact::laws::lemma_applied_twice;
use crate::exact::{applied, same4, scaled_identity, small, times, Grid, LIMIT};
use crate::matrix::Matrix4x4;

verus! {

/// The grid that moves points by `(dx, dy, dz)`.
pub open spec fn translation(dx: int, dy: int, dz: int) -> Grid {
    |i: int, j: int|
        if i == j {
            1
        } else if j == 3 && i == 0 {
            dx
        } else if j == 3 && i == 1 {
            dy
        } else if j == 3 && i == 2 {
            dz
        } else {
            0
        }
}

/// The grid that scales by `x`, `y` and `z` along the three axes.
pub open spec fn scaling(x: int, y: int, z: int) -> Grid {
    |i: int, j: int|
        if i != j {
            0
        } else if i == 0 {
            x
        } else if i == 1 {
            y
        } else if i == 2 {
            z
        } else {
            1
        }
}

/// The grid that moves each coordinate in proportion to the two others:
/// `xy` is what x gains for each unit of y, and so on.
pub open spec fn shear(xy: int, xz: int, yx: int, yz: int, zx: int, zy: int) -> Grid {
    |i: int, j: int|
        if i == j {
            1
        } else if i == 0 && j == 1 {
            xy
        } else if i == 0 && j == 2 {
            xz
        } else if i == 1 && j == 0 {
            yx
        } else if i == 1 && j == 2 {
            yz
        } else if i == 2 && j == 0 {
            zx
        } else if i == 2 && j == 1 {
            zy
        } else {
            0
        }
}

/// The matrix with the given rows is the grid `g`.
proof fn lemma_rows_are(m: Matrix4x4<i64>, g: Grid)
    requires
        m.elements@[0]@ == seq![g(0, 0) as i64, g(0, 1) as i64, g(0, 2) as i64, g(0, 3) as i64],
        m.elements@[1]@ == seq![g(1, 0) as i64, g(1, 1) as i64, g(1, 2) as i64, g(1, 3) as i64],
        m.elements@[2]@ == seq![g(2, 0) as i64, g(2, 1) as i64, g(2, 2) as i64, g(2, 3) as i64],
        m.elements@[3]@ == seq![g(3, 0) as i64, g(3, 1) as i64, g(3, 2) as i64, g(3, 3) as i64],
        forall|i: int, j: int|
            0 <= i < 4 && 0 <= j < 4 ==> i64::MIN <= #[trigger] g(i, j) <= i64::MAX,
    ensures
        same4(m.grid(), g),
{
    assert forall|i: int, j: int| 0 <= i < 4 && 0 <= j < 4 implies #[trigger] (m.grid())(i, j)
        == g(i, j) by {
        assert(i64::MIN <= g(i, j) <= i64::MAX);
    }
}

/// The matrix that moves points by `(dx, dy, dz)`.
pub fn translate(dx: i64, dy: i64, dz: i64) -> (m: Matrix4x4<i64>)
    ensures
        same4(m.grid(), translation(dx as int, dy as int, dz as int)),
{
    let m = Matrix4x4::from_elementsi(
        [[1i64, 0, 0, dx], [0i64, 1, 0, dy], [0i64, 0, 1, dz], [0i64, 0, 0, 1]],
    );
    proof {
        lemma_rows_are(m, translation(dx as int, dy as int, dz as int));
    }
    m
}

/// The matrix that scales by `x`, `y` and `z` along the three axes.
pub fn scale(x: i64, y: i64, z: i64) -> (m: Matrix4x4<i64>)
    ensures
        same4(m.grid(), scaling(x as int, y as int, z as int)),
{
    let m = Matrix4x4::from_elementsi(
        [[x, 0, 0, 0], [0i64, y, 0, 0], [0i64, 0, z, 0], [0i64, 0, 0, 1]],
    );
    proof {
        lemma_rows_are(m, scaling(x as int, y as int, z as int));
    }
    m
}

/// The matrix that moves each coordinate in proportion to the two others.
pub fn shearing(xy: i64, xz: i64, yx: i64, yz: i64, zx: i64, zy: i64) -> (m: Matrix4x4<i64>)
    ensures
        same4(
            m.grid(),
            shear(xy as int, xz as int, yx as int, yz as int, zx as int, zy as int),
        ),
{
    let m = Matrix4x4::from_elementsi(
        [[1i64, xy, xz, 0], [yx, 1, yz, 0], [zx, zy, 1, 0], [0i64, 0, 0, 1]],
    );
    proof {
        lemma_rows_are(m, shear(xy as int, xz as int, yx as int, yz as int, zx as int, zy as int));
    }
    m
}

/// Whether `v` is within `LIMIT` of zero.
pub open spec fn within_limit(v: i64) -> bool {
    -LIMIT <= v <= LIMIT
}

impl Matrix4x4<i64> {
    /// This matrix followed by a move by `(x, y, z)`.
    pub fn translate(&self, x: i64, y: i64, z: i64) -> (m: Self)
        requires
            small(self.grid(), 4),
            within_limit(x),
            within_limit(y),
            within_limit(z),
        ensures
            same4(m.grid(), times(translation(x as int, y as int, z as int), self.grid())),
    {
        let t = translate(x, y, z);
        proof {
            let g = t.grid();
            assert forall|i: int, j: int| 0 <= i < 4 && 0 <= j < 4 implies -LIMIT <= #[trigger] g(
                i,
                j,
            ) <= LIMIT by {
                assert(g(i, j) == translation(x as int, y as int, z as int)(i, j));
            }
        }
        t.times(self)
    }

    /// This matrix followed by a scaling by `x`, `y` and `z`.
    pub fn scale(&self, x: i64, y: i64, z: i64) -> (m: Self)
        requires
            small(self.grid(), 4),
            within_limit(x),
            within_limit(y),
            within_limit(z),
        ensures
            same4(m.grid(), times(scaling(x as int, y as int, z as int), self.grid())),
    {
        let t = scale(x, y, z);
        proof {
            let g = t.grid();
            assert forall|i: int, j: int| 0 <= i < 4 && 0 <= j < 4 implies -LIMIT <= #[trigger] g(
                i,
                j,
            ) <= LIMIT by {
                assert(g(i, j) == scaling(x as int, y as int, z as int)(i, j));
            }
        }
        t.times(self)
    }

    /// This matrix followed by a shear.
    pub fn shearing(&self, xy: i64, xz: i64, yx: i64, yz: i64, zx: i64, zy: i64) -> (m: Self)
        requires
            small(self.grid(), 4),
            within_limit(xy),
            within_limit(xz),
            within_limit(yx),
            within_limit(yz),
            within_limit(zx),
            within_limit(zy),
        ensures
            same4(
                m.grid(),
                times(
                    shear(xy as int, xz as int, yx as int, yz as int, zx as int, zy as int),
                    self.grid(),
                ),
            ),
    {
        let t = shearing(xy, xz, yx, yz, zx, zy);
        proof {
            let g = t.grid();
            assert forall|i: int, j: int| 0 <= i < 4 && 0 <= j < 4 implies -LIMIT <= #[trigger] g(
                i,
                j,
            ) <= LIMIT by {
                assert(g(i, j) == shear(
                    xy as int,
                    xz as int,
                    yx as int,
                    yz as int,
                    zx as int,
                    zy as int,
                )(i, j));
            }
        }
        t.times(self)
    }
}

/// A translation moves a point, whose last coordinate is 1, and leaves a
/// vector, whose last coordinate is 0, as it is.
pub proof fn lemma_translation_moves_points(dx: int, dy: int, dz: int, x: int, y: int, z: int)
    ensures
        applied(translation(dx, dy, dz), (x, y, z, 1)) == (x + dx, y + dy, z + dz, 1int),
        applied(translation(dx, dy, dz), (x, y, z, 0)) == (x, y, z, 0int),
{
}

/// A scaling multiplies each coordinate by its factor.
pub proof fn lemma_scaling_scales(a: int, b: int, c: int, p: (int, int, int, int))
    ensures
        applied(scaling(a, b, c), p) == (a * p.0, b * p.1, c * p.2, p.3),
{
}

/// A shear adds to each coordinate its share of the two others.
pub proof fn lemma_shear_shears(
    xy: int,
    xz: int,
    yx: int,
    yz: int,
    zx: int,
    zy: int,
    p: (int, int, int, int),
)
    ensures
        applied(shear(xy, xz, yx, yz, zx, zy), p) == (
            p.0 + xy * p.1 + xz * p.2,
            yx * p.0 + p.1 + yz * p.2,
            zx * p.0 + zy * p.1 + p.2,
            p.3,
        ),
{
}

/// The order of a chain: a transform put in front of a matrix acts on what
/// the matrix has produced. So of the calls of a chain the first acts first.
pub proof fn lemma_chained_acts_last(t: Grid, m: Grid, p: (int, int, int, int))
    ensures
        applied(times(t, m), p) == applied(t, applied(m, p)),
{
    lemma_applied_twice(t, m, p);
}

/// Scaling and then moving is not moving and then scaling: a point first
/// scaled by `s` and then moved by `d` ends at `s * x + d`.
pub proof fn lemma_scale_then_translate(s: int, d: int, x: int, y: int, z: int)
    ensures
        applied(times(translation(d, d, d), scaling(s, s, s)), (x, y, z, 1)) == (
            s * x + d,
            s * y + d,
            s * z + d,
            1int,
        ),
{
    lemma_applied_twice(translation(d, d, d), scaling(s, s, s), (x, y, z, 1));
    lemma_scaling_scales(s, s, s, (x, y, z, 1));
    lemma_translation_moves_points(d, d, d, s * x, s * y, s * z);
}

/// Moving back undoes moving: the two translations multiply to the
/// identity.
pub proof fn lemma_translation_inverse(dx: int, dy: int, dz: int)
    ensures
        same4(times(translation(dx, dy, dz), translation(-dx, -dy, -dz)), scaled_identity(1)),
        same4(times(translation(-dx, -dy, -dz), translation(dx, dy, dz)), scaled_identity(1)),
{
}

} // verus!
