//! Exact arithmetic on matrices of integers: products, and determinants,
//! minors, cofactors and inverses by expansion along the first row.
//!
//! The laws that tie them together are proved in `laws`, from the written-out
//! determinants of `rows`.

pub mod laws;
pub mod rows;

use vstd::prelude::*;
use crate::matrix::{cofactor_is_negated, skip_index, Matrix2x2, Matrix3x3, Matrix4x4};

verus! {

/// A square grid of integers, read by row and column.
pub type Grid = spec_fn(int, int) -> int;

/// The grid without row `row` and column `col`.
pub open spec fn without(g: Grid, row: int, col: int) -> Grid {
    |i: int, j: int| g(skip_index(i, row), skip_index(j, col))
}

/// The sign of the cofactor at row `i`, column `j`.
pub open spec fn sign(i: int, j: int) -> int {
    if (i + j) % 2 == 1 {
        -1
    } else {
        1
    }
}

/// The determinant of the 2 by 2 grid in the top left corner of `g`.
pub open spec fn det2(g: Grid) -> int {
    g(0, 0) * g(1, 1) - g(0, 1) * g(1, 0)
}

/// The cofactor at row `i`, column `j` of the 3 by 3 grid in the top left
/// corner of `g`.
pub open spec fn cofactor3(g: Grid, i: int, j: int) -> int {
    sign(i, j) * det2(without(g, i, j))
}

/// The determinant of the 3 by 3 grid in the top left corner of `g`.
pub open spec fn det3(g: Grid) -> int {
    cofactor3(g, 0, 0) * g(0, 0) + cofactor3(g, 0, 1) * g(0, 1) + cofactor3(g, 0, 2) * g(0, 2)
}

/// The cofactor at row `i`, column `j` of the 4 by 4 grid in the top left
/// corner of `g`.
pub open spec fn cofactor4(g: Grid, i: int, j: int) -> int {
    sign(i, j) * det3(without(g, i, j))
}

/// The determinant of the 4 by 4 grid in the top left corner of `g`.
pub open spec fn det4(g: Grid) -> int {
    cofactor4(g, 0, 0) * g(0, 0) + cofactor4(g, 0, 1) * g(0, 1) + cofactor4(g, 0, 2) * g(0, 2)
        + cofactor4(g, 0, 3) * g(0, 3)
}

/// The greatest magnitude of an entry for which determinants are computed.
pub const LIMIT: i64 = 1_000_000_000;

/// Whether every entry of the top left `n` by `n` corner of `g` is within
/// `LIMIT` of zero.
pub open spec fn small(g: Grid, n: int) -> bool {
    forall|i: int, j: int| 0 <= i < n && 0 <= j < n ==> -LIMIT <= #[trigger] g(i, j) <= LIMIT
}

/// The inverse of a 4 by 4 matrix of integers as exact fractions: entry
/// `(i, j)` of the inverse is `numerators` at `(i, j)` over `denominator`.
#[derive(Clone, Copy, Debug)]
pub struct Inverse {
    pub numerators: Matrix4x4<i128>,
    pub denominator: i128,
}

impl Inverse {
    /// The numerators as a grid.
    pub open spec fn grid(self) -> Grid {
        |i: int, j: int| self.numerators.at(i, j) as int
    }

    /// Whether this is the inverse of `g` by the rule of cofactors: the
    /// determinant of `g`, which is not zero, under the transposed cofactors.
    pub open spec fn inverts(self, g: Grid) -> bool {
        &&& self.denominator == det4(g)
        &&& self.denominator != 0
        &&& forall|i: int, j: int|
            0 <= i < 4 && 0 <= j < 4 ==> #[trigger] self.numerators.at(j, i) == cofactor4(g, i, j)
    }
}

impl Matrix2x2<i64> {
    /// The entries as a grid.
    pub open spec fn grid(self) -> Grid {
        |i: int, j: int| self.at(i, j) as int
    }

    /// The determinant.
    pub fn determinant(&self) -> (d: i128)
        requires
            small(self.grid(), 2),
        ensures
            d == det2(self.grid()),
            -2 * LIMIT * LIMIT <= d <= 2 * LIMIT * LIMIT,
    {
        let a: i128 = self.elements[0][0] as i128;
        let b: i128 = self.elements[0][1] as i128;
        let c: i128 = self.elements[1][0] as i128;
        let d: i128 = self.elements[1][1] as i128;
        proof {
            let g = self.grid();
            assert(g(0, 0) == a && g(0, 1) == b && g(1, 0) == c && g(1, 1) == d);
            lemma_product_bound(a as int, d as int, LIMIT as int, LIMIT as int);
            lemma_product_bound(b as int, c as int, LIMIT as int, LIMIT as int);
        }
        a * d - b * c
    }
}

impl Matrix3x3<i64> {
    /// The entries as a grid.
    pub open spec fn grid(self) -> Grid {
        |i: int, j: int| self.at(i, j) as int
    }

    /// The matrix with the given rows.
    pub fn from_elementsi(elements: [[i64; 3]; 3]) -> (m: Self)
        ensures
            m.elements == elements,
    {
        Matrix3x3 { elements }
    }

    /// The minor at row `i`, column `j`: the determinant of what is left
    /// without that row and that column.
    pub fn minor(&self, i: usize, j: usize) -> (d: i128)
        requires
            small(self.grid(), 3),
        ensures
            d == det2(without(self.grid(), i as int, j as int)),
            -2 * LIMIT * LIMIT <= d <= 2 * LIMIT * LIMIT,
    {
        let sub: Matrix2x2<i64> = self.submatrix(i, j);
        proof {
            let g = self.grid();
            let h = without(g, i as int, j as int);
            let s = sub.grid();
            assert forall|a: int, b: int| 0 <= a < 2 && 0 <= b < 2 implies s(a, b) == h(a, b)
                && -LIMIT <= #[trigger] s(a, b) <= LIMIT by {
                assert(sub.at(a, b) == self.at(skip_index(a, i as int), skip_index(b, j as int)));
                assert(-LIMIT <= g(skip_index(a, i as int), skip_index(b, j as int)) <= LIMIT);
            }
            assert(s(0, 0) == h(0, 0) && s(0, 1) == h(0, 1) && s(1, 0) == h(1, 0) && s(1, 1) == h(
                1,
                1,
            ));
        }
        sub.determinant()
    }

    /// The cofactor at row `i`, column `j`: the minor, negated where `i + j`
    /// is odd.
    pub fn cofactor(&self, i: usize, j: usize) -> (d: i128)
        requires
            small(self.grid(), 3),
        ensures
            d == cofactor3(self.grid(), i as int, j as int),
            -2 * LIMIT * LIMIT <= d <= 2 * LIMIT * LIMIT,
    {
        let minor: i128 = self.minor(i, j);
        if cofactor_is_negated(i, j) {
            -minor
        } else {
            minor
        }
    }

    /// The determinant, by expansion along the first row.
    pub fn determinant(&self) -> (d: i128)
        requires
            small(self.grid(), 3),
        ensures
            d == det3(self.grid()),
            -6 * LIMIT * LIMIT * LIMIT <= d <= 6 * LIMIT * LIMIT * LIMIT,
    {
        let t0: i128 = self.term(0);
        let t1: i128 = self.term(1);
        let t2: i128 = self.term(2);
        t0 + t1 + t2
    }

    /// The term of column `j` in the expansion along the first row.
    fn term(&self, j: usize) -> (t: i128)
        requires
            small(self.grid(), 3),
            j < 3,
        ensures
            t == cofactor3(self.grid(), 0, j as int) * (self.grid())(0, j as int),
            -2 * LIMIT * LIMIT * LIMIT <= t <= 2 * LIMIT * LIMIT * LIMIT,
    {
        let c: i128 = self.cofactor(0, j);
        let e: i128 = self.elements[0][j] as i128;
        proof {
            let g = self.grid();
            assert(g(0, j as int) == e);
            lemma_product_bound(c as int, e as int, 2 * LIMIT * LIMIT, LIMIT as int);
            assert(2 * LIMIT * LIMIT * LIMIT == (2 * LIMIT * LIMIT) * LIMIT) by (nonlinear_arith);
        }
        c * e
    }
}

impl Matrix4x4<i64> {
    /// The entries as a grid.
    pub open spec fn grid(self) -> Grid {
        |i: int, j: int| self.at(i, j) as int
    }

    /// The matrix with the given rows.
    pub fn from_elementsi(elements: [[i64; 4]; 4]) -> (m: Self)
        ensures
            m.elements == elements,
    {
        Matrix4x4 { elements }
    }

    /// The identity matrix.
    pub fn identity() -> (m: Self)
        ensures
            same4(m.grid(), scaled_identity(1)),
            small(m.grid(), 4),
    {
        let m = Matrix4x4 {
            elements: [[1i64, 0, 0, 0], [0i64, 1, 0, 0], [0i64, 0, 1, 0], [0i64, 0, 0, 1]],
        };
        proof {
            let g = m.grid();
            assert forall|i: int, j: int| 0 <= i < 4 && 0 <= j < 4 implies #[trigger] g(i, j)
                == scaled_identity(1)(i, j) by {
                assert(m.elements@[0]@ =~= seq![1i64, 0, 0, 0]);
                assert(m.elements@[1]@ =~= seq![0i64, 1, 0, 0]);
                assert(m.elements@[2]@ =~= seq![0i64, 0, 1, 0]);
                assert(m.elements@[3]@ =~= seq![0i64, 0, 0, 1]);
            }
        }
        m
    }

    /// Whether every entry is within `LIMIT` of zero, so that determinants
    /// and products can be computed.
    pub fn is_small(&self) -> (yes: bool)
        ensures
            yes == small(self.grid(), 4),
    {
        let mut i: usize = 0;
        while i < 4
            invariant
                i <= 4,
                forall|a: int, b: int|
                    0 <= a < i && 0 <= b < 4 ==> -LIMIT <= #[trigger] (self.grid())(a, b) <= LIMIT,
            decreases 4 - i,
        {
            let mut j: usize = 0;
            while j < 4
                invariant
                    i < 4,
                    j <= 4,
                    forall|a: int, b: int|
                        0 <= a < i && 0 <= b < 4 ==> -LIMIT <= #[trigger] (self.grid())(a, b)
                            <= LIMIT,
                    forall|b: int| 0 <= b < j ==> -LIMIT <= #[trigger] (self.grid())(i as int, b) <= LIMIT,
                decreases 4 - j,
            {
                let e: i64 = self.elements[i][j];
                if e < -LIMIT || e > LIMIT {
                    proof {
                        assert((self.grid())(i as int, j as int) == e);
                    }
                    return false;
                }
                proof {
                    assert((self.grid())(i as int, j as int) == e);
                }
                j += 1;
            }
            i += 1;
        }
        true
    }

    /// The entry at row `i`, column `j` of the product with `m`.
    fn times_at(&self, m: &Self, i: usize, j: usize) -> (e: i64)
        requires
            small(self.grid(), 4),
            small(m.grid(), 4),
            i < 4,
            j < 4,
        ensures
            e == times(self.grid(), m.grid())(i as int, j as int),
    {
        let a0: i64 = self.elements[i][0];
        let a1: i64 = self.elements[i][1];
        let a2: i64 = self.elements[i][2];
        let a3: i64 = self.elements[i][3];
        let b0: i64 = m.elements[0][j];
        let b1: i64 = m.elements[1][j];
        let b2: i64 = m.elements[2][j];
        let b3: i64 = m.elements[3][j];
        proof {
            let g = self.grid();
            let h = m.grid();
            assert(g(i as int, 0) == a0 && g(i as int, 1) == a1 && g(i as int, 2) == a2 && g(
                i as int,
                3,
            ) == a3);
            assert(h(0, j as int) == b0 && h(1, j as int) == b1 && h(2, j as int) == b2 && h(
                3,
                j as int,
            ) == b3);
            lemma_product_bound(a0 as int, b0 as int, LIMIT as int, LIMIT as int);
            lemma_product_bound(a1 as int, b1 as int, LIMIT as int, LIMIT as int);
            lemma_product_bound(a2 as int, b2 as int, LIMIT as int, LIMIT as int);
            lemma_product_bound(a3 as int, b3 as int, LIMIT as int, LIMIT as int);
        }
        a0 * b0 + a1 * b1 + a2 * b2 + a3 * b3
    }

    /// Row `i` times the column `p`.
    fn row_times(&self, p: &[i64; 4], i: usize) -> (e: i64)
        requires
            small(self.grid(), 4),
            forall|k: int| 0 <= k < 4 ==> -LIMIT <= #[trigger] p@[k] <= LIMIT,
            i < 4,
        ensures
            e == (self.grid())(i as int, 0) * p@[0] + (self.grid())(i as int, 1) * p@[1] + (
            self.grid())(i as int, 2) * p@[2] + (self.grid())(i as int, 3) * p@[3],
    {
        let a0: i64 = self.elements[i][0];
        let a1: i64 = self.elements[i][1];
        let a2: i64 = self.elements[i][2];
        let a3: i64 = self.elements[i][3];
        let b0: i64 = p[0];
        let b1: i64 = p[1];
        let b2: i64 = p[2];
        let b3: i64 = p[3];
        proof {
            let g = self.grid();
            assert(g(i as int, 0) == a0 && g(i as int, 1) == a1 && g(i as int, 2) == a2 && g(
                i as int,
                3,
            ) == a3);
            lemma_product_bound(a0 as int, b0 as int, LIMIT as int, LIMIT as int);
            lemma_product_bound(a1 as int, b1 as int, LIMIT as int, LIMIT as int);
            lemma_product_bound(a2 as int, b2 as int, LIMIT as int, LIMIT as int);
            lemma_product_bound(a3 as int, b3 as int, LIMIT as int, LIMIT as int);
        }
        a0 * b0 + a1 * b1 + a2 * b2 + a3 * b3
    }

    /// The matrix applied to the column `p`: a point where the last entry of
    /// `p` is 1, a vector where it is 0.
    pub fn apply(&self, p: &[i64; 4]) -> (q: [i64; 4])
        requires
            small(self.grid(), 4),
            forall|k: int| 0 <= k < 4 ==> -LIMIT <= #[trigger] p@[k] <= LIMIT,
        ensures
            (q@[0] as int, q@[1] as int, q@[2] as int, q@[3] as int) == applied(
                self.grid(),
                (p@[0] as int, p@[1] as int, p@[2] as int, p@[3] as int),
            ),
    {
        [self.row_times(p, 0), self.row_times(p, 1), self.row_times(p, 2), self.row_times(p, 3)]
    }

    /// The product with `m`: the matrix that does what `m` does and then
    /// what this matrix does.
    pub fn times(&self, m: &Self) -> (product: Self)
        requires
            small(self.grid(), 4),
            small(m.grid(), 4),
        ensures
            same4(product.grid(), times(self.grid(), m.grid())),
    {
        let product = Matrix4x4 {
            elements: [
                [
                    self.times_at(m, 0, 0),
                    self.times_at(m, 0, 1),
                    self.times_at(m, 0, 2),
                    self.times_at(m, 0, 3),
                ],
                [
                    self.times_at(m, 1, 0),
                    self.times_at(m, 1, 1),
                    self.times_at(m, 1, 2),
                    self.times_at(m, 1, 3),
                ],
                [
                    self.times_at(m, 2, 0),
                    self.times_at(m, 2, 1),
                    self.times_at(m, 2, 2),
                    self.times_at(m, 2, 3),
                ],
                [
                    self.times_at(m, 3, 0),
                    self.times_at(m, 3, 1),
                    self.times_at(m, 3, 2),
                    self.times_at(m, 3, 3),
                ],
            ],
        };
        product
    }

    /// The minor at row `i`, column `j`: the determinant of what is left
    /// without that row and that column.
    pub fn minor(&self, i: usize, j: usize) -> (d: i128)
        requires
            small(self.grid(), 4),
        ensures
            d == det3(without(self.grid(), i as int, j as int)),
            -6 * LIMIT * LIMIT * LIMIT <= d <= 6 * LIMIT * LIMIT * LIMIT,
    {
        let sub: Matrix3x3<i64> = self.submatrix(i, j);
        proof {
            let g = self.grid();
            let h = without(g, i as int, j as int);
            let s = sub.grid();
            assert forall|a: int, b: int| 0 <= a < 3 && 0 <= b < 3 implies s(a, b) == h(a, b)
                && -LIMIT <= #[trigger] s(a, b) <= LIMIT by {
                assert(sub.at(a, b) == self.at(skip_index(a, i as int), skip_index(b, j as int)));
                assert(-LIMIT <= g(skip_index(a, i as int), skip_index(b, j as int)) <= LIMIT);
            }
            lemma_det3_reads_corner(s, h);
        }
        sub.determinant()
    }

    /// The cofactor at row `i`, column `j`: the minor, negated where `i + j`
    /// is odd.
    pub fn cofactor(&self, i: usize, j: usize) -> (d: i128)
        requires
            small(self.grid(), 4),
        ensures
            d == cofactor4(self.grid(), i as int, j as int),
            -6 * LIMIT * LIMIT * LIMIT <= d <= 6 * LIMIT * LIMIT * LIMIT,
    {
        let minor: i128 = self.minor(i, j);
        if cofactor_is_negated(i, j) {
            -minor
        } else {
            minor
        }
    }

    /// The determinant, by expansion along the first row.
    pub fn determinant(&self) -> (d: i128)
        requires
            small(self.grid(), 4),
        ensures
            d == det4(self.grid()),
            -24 * LIMIT * LIMIT * LIMIT * LIMIT <= d <= 24 * LIMIT * LIMIT * LIMIT * LIMIT,
    {
        let t0: i128 = self.term(0);
        let t1: i128 = self.term(1);
        let t2: i128 = self.term(2);
        let t3: i128 = self.term(3);
        t0 + t1 + t2 + t3
    }

    /// The inverse as fractions over one denominator, or nothing where the
    /// determinant is zero. The denominator is the determinant; the numerator
    /// at row `j`, column `i` is the cofactor at row `i`, column `j`.
    pub fn inverse(&self) -> (inv: Option<Inverse>)
        requires
            small(self.grid(), 4),
        ensures
            inv.is_none() <==> det4(self.grid()) == 0,
            inv.is_some() ==> inv.unwrap().inverts(self.grid()),
    {
        let d: i128 = self.determinant();
        if d == 0 {
            None
        } else {
            let numerators: Matrix4x4<i128> = Matrix4x4::from_elements(
                [
                    [
                        self.cofactor(0, 0),
                        self.cofactor(1, 0),
                        self.cofactor(2, 0),
                        self.cofactor(3, 0),
                    ],
                    [
                        self.cofactor(0, 1),
                        self.cofactor(1, 1),
                        self.cofactor(2, 1),
                        self.cofactor(3, 1),
                    ],
                    [
                        self.cofactor(0, 2),
                        self.cofactor(1, 2),
                        self.cofactor(2, 2),
                        self.cofactor(3, 2),
                    ],
                    [
                        self.cofactor(0, 3),
                        self.cofactor(1, 3),
                        self.cofactor(2, 3),
                        self.cofactor(3, 3),
                    ],
                ],
            );
            Some(Inverse { numerators, denominator: d })
        }
    }

    /// The term of column `j` in the expansion along the first row.
    fn term(&self, j: usize) -> (t: i128)
        requires
            small(self.grid(), 4),
            j < 4,
        ensures
            t == cofactor4(self.grid(), 0, j as int) * (self.grid())(0, j as int),
            -6 * LIMIT * LIMIT * LIMIT * LIMIT <= t <= 6 * LIMIT * LIMIT * LIMIT * LIMIT,
    {
        let c: i128 = self.cofactor(0, j);
        let e: i128 = self.elements[0][j] as i128;
        proof {
            let g = self.grid();
            assert(g(0, j as int) == e);
            lemma_product_bound(c as int, e as int, 6 * LIMIT * LIMIT * LIMIT, LIMIT as int);
            assert(6 * LIMIT * LIMIT * LIMIT * LIMIT == (6 * LIMIT * LIMIT * LIMIT) * LIMIT)
                by (nonlinear_arith);
        }
        c * e
    }
}

/// A 3 by 3 determinant reads only the top left 3 by 3 corner of its grid.
pub proof fn lemma_det3_reads_corner(g: Grid, h: Grid)
    requires
        forall|i: int, j: int| 0 <= i < 3 && 0 <= j < 3 ==> #[trigger] g(i, j) == h(i, j),
    ensures
        det3(g) == det3(h),
{
    assert(g(0, 0) == h(0, 0) && g(0, 1) == h(0, 1) && g(0, 2) == h(0, 2));
    assert(g(1, 0) == h(1, 0) && g(1, 1) == h(1, 1) && g(1, 2) == h(1, 2));
    assert(g(2, 0) == h(2, 0) && g(2, 1) == h(2, 1) && g(2, 2) == h(2, 2));
    assert(det2(without(g, 0, 0)) == det2(without(h, 0, 0)));
    assert(det2(without(g, 0, 1)) == det2(without(h, 0, 1)));
    assert(det2(without(g, 0, 2)) == det2(without(h, 0, 2)));
}

/// The grid flipped over its main diagonal.
pub open spec fn transposed(g: Grid) -> Grid {
    |i: int, j: int| g(j, i)
}

/// The product of two 4 by 4 grids.
pub open spec fn times(a: Grid, b: Grid) -> Grid {
    |i: int, j: int| a(i, 0) * b(0, j) + a(i, 1) * b(1, j) + a(i, 2) * b(2, j) + a(i, 3) * b(3, j)
}

/// The identity grid with `d` in place of every one.
pub open spec fn scaled_identity(d: int) -> Grid {
    |i: int, j: int|
        if i == j {
            d
        } else {
            0
        }
}

/// Whether two grids have the same 4 by 4 corner.
pub open spec fn same4(a: Grid, b: Grid) -> bool {
    forall|i: int, j: int| 0 <= i < 4 && 0 <= j < 4 ==> #[trigger] a(i, j) == b(i, j)
}

/// A 4 by 4 grid applied to a column of four.
pub open spec fn applied(g: Grid, p: (int, int, int, int)) -> (int, int, int, int) {
    (
        g(0, 0) * p.0 + g(0, 1) * p.1 + g(0, 2) * p.2 + g(0, 3) * p.3,
        g(1, 0) * p.0 + g(1, 1) * p.1 + g(1, 2) * p.2 + g(1, 3) * p.3,
        g(2, 0) * p.0 + g(2, 1) * p.1 + g(2, 2) * p.2 + g(2, 3) * p.3,
        g(3, 0) * p.0 + g(3, 1) * p.1 + g(3, 2) * p.2 + g(3, 3) * p.3,
    )
}

/// The dot product of two columns of four.
pub open spec fn dot4(a: (int, int, int, int), b: (int, int, int, int)) -> int {
    a.0 * b.0 + a.1 * b.1 + a.2 * b.2 + a.3 * b.3
}

/// A product is bounded by the product of the bounds of its factors.
pub proof fn lemma_product_bound(x: int, y: int, a: int, b: int)
    requires
        -a <= x <= a,
        -b <= y <= b,
    ensures
        -(a * b) <= x * y <= a * b,
{
    assert(-(a * b) <= x * y <= a * b) by (nonlinear_arith)
        requires
            -a <= x <= a,
            -b <= y <= b,
    ;
}



} // verus!
