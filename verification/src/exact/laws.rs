//! The laws of the exact kernel: the rule of cofactors by rows and by
//! columns, and what follows for a matrix and its inverse.

use vstd::prelude::*;
use crate::exact::rows::{
    columns, det4_of, kept_row, leibniz, lemma_det3_of_rows, lemma_det3_of_transpose,
    lemma_det4_of_equal_rows, lemma_det4_of_is_leibniz, lemma_det4_of_raised, lemma_det4_of_rows,
    lemma_det4_of_swap_upper, lemma_det4_of_transpose, lemma_minor_of_rows, lemma_mul3_orders,
    row3, row4,
};
use crate::exact::{
    applied, cofactor4, det3, det4, dot4, same4, scaled_identity, sign, times, transposed,
    without, Grid, Inverse,
};
use crate::matrix::{is_transpose, Matrix4x4};

verus! {

/// The determinant by expansion along the first row is the sum over every
/// way of picking one entry from each row and each column, with the sign of
/// the permutation.
pub proof fn lemma_det4_is_leibniz(g: Grid)
    ensures
        det4(g) == leibniz(row4(g, 0), row4(g, 1), row4(g, 2), row4(g, 3)),
{
    lemma_det4_of_rows(g);
    lemma_det4_of_is_leibniz(row4(g, 0), row4(g, 1), row4(g, 2), row4(g, 3));
}

/// The entries of row `i` of a 4 by 4 grid, each times the cofactor of the
/// entry in the same column of row `j`, summed.
pub open spec fn expansion(g: Grid, i: int, j: int) -> int {
    g(i, 0) * cofactor4(g, j, 0) + g(i, 1) * cofactor4(g, j, 1) + g(i, 2) * cofactor4(g, j, 2) + g(
        i,
        3,
    ) * cofactor4(g, j, 3)
}

/// An entry times a cofactor is the minor times the entry, with the
/// cofactor's sign.
proof fn lemma_signed_term(x: int, s: int, m: int)
    requires
        s == 1 || s == -1,
    ensures
        s == 1 ==> x * (s * m) == m * x,
        s == -1 ==> x * (s * m) == -(m * x),
{
    assert(s == 1 ==> x * (s * m) == m * x) by (nonlinear_arith);
    assert(s == -1 ==> x * (s * m) == -(m * x)) by (nonlinear_arith);
}

/// A number times a sign is the number or its opposite.
proof fn lemma_sign_mul(s: int, d: int)
    ensures
        s == 1 ==> s * d == d,
        s == -1 ==> s * d == -d,
{
    assert(s == 1 ==> s * d == d) by (nonlinear_arith);
    assert(s == -1 ==> s * d == -d) by (nonlinear_arith);
}

/// The expansion along row `j` with the entries of row `i` is, up to the
/// sign of the first cofactor of row `j`, the written-out determinant of row
/// `i` above the rows other than `j`.
pub proof fn lemma_expansion_of_rows(g: Grid, i: int, j: int)
    requires
        0 <= i < 4,
        0 <= j < 4,
    ensures
        expansion(g, i, j) == sign(j, 0) * det4_of(
            row4(g, i),
            kept_row(g, 0, j),
            kept_row(g, 1, j),
            kept_row(g, 2, j),
        ),
{
    lemma_minor_of_rows(g, j, 0);
    lemma_minor_of_rows(g, j, 1);
    lemma_minor_of_rows(g, j, 2);
    lemma_minor_of_rows(g, j, 3);
    lemma_signed_term(g(i, 0), sign(j, 0), det3(without(g, j, 0)));
    lemma_signed_term(g(i, 1), sign(j, 1), det3(without(g, j, 1)));
    lemma_signed_term(g(i, 2), sign(j, 2), det3(without(g, j, 2)));
    lemma_signed_term(g(i, 3), sign(j, 3), det3(without(g, j, 3)));
    lemma_sign_mul(
        sign(j, 0),
        det4_of(row4(g, i), kept_row(g, 0, j), kept_row(g, 1, j), kept_row(g, 2, j)),
    );
    if j == 0 || j == 2 {
        assert(sign(j, 0) == 1 && sign(j, 1) == -1 && sign(j, 2) == 1 && sign(j, 3) == -1);
    } else {
        assert(sign(j, 0) == -1 && sign(j, 1) == 1 && sign(j, 2) == -1 && sign(j, 3) == 1);
    }
}

/// The rule of cofactors. The entries of a row times their own cofactors sum
/// to the determinant, whichever row it is; the entries of a row times the
/// cofactors of another row sum to zero.
pub proof fn lemma_cofactor_expansion(g: Grid, i: int, j: int)
    requires
        0 <= i < 4,
        0 <= j < 4,
    ensures
        expansion(g, i, j) == if i == j {
            det4(g)
        } else {
            0
        },
{
    let r0 = row4(g, 0);
    let r1 = row4(g, 1);
    let r2 = row4(g, 2);
    let r3 = row4(g, 3);
    lemma_det4_of_rows(g);
    lemma_expansion_of_rows(g, i, j);
    let x = row4(g, i);
    let a = kept_row(g, 0, j);
    let b = kept_row(g, 1, j);
    let c = kept_row(g, 2, j);
    lemma_sign_mul(sign(j, 0), det4_of(x, a, b, c));
    if j == 0 {
        assert(a == r1 && b == r2 && c == r3 && sign(j, 0) == 1);
    } else if j == 1 {
        assert(a == r0 && b == r2 && c == r3 && sign(j, 0) == -1);
    } else if j == 2 {
        assert(a == r0 && b == r1 && c == r3 && sign(j, 0) == 1);
    } else {
        assert(a == r0 && b == r1 && c == r2 && sign(j, 0) == -1);
    }
    if i == j {
        lemma_det4_of_swap_upper(r0, r1, r2, r3);
        lemma_det4_of_raised(r0, r1, r2, r3);
    } else {
        assert(x == r0 || x == r1 || x == r2 || x == r3);
        lemma_det4_of_equal_rows(x, a, b, c);
    }
}

/// Transposing does not change the determinant.
pub proof fn lemma_det4_transpose(g: Grid)
    ensures
        det4(transposed(g)) == det4(g),
{
    let t = transposed(g);
    lemma_det4_of_rows(g);
    lemma_det4_of_rows(t);
    lemma_det4_of_transpose(row4(g, 0), row4(g, 1), row4(g, 2), row4(g, 3));
    let c = columns(row4(g, 0), row4(g, 1), row4(g, 2), row4(g, 3));
    assert(row4(t, 0) == c.0 && row4(t, 1) == c.1 && row4(t, 2) == c.2 && row4(t, 3) == c.3);
}

/// The cofactors of the transpose are the cofactors of the grid, with row
/// and column exchanged.
pub proof fn lemma_cofactor_transpose(g: Grid, i: int, j: int)
    requires
        0 <= i < 4,
        0 <= j < 4,
    ensures
        cofactor4(transposed(g), i, j) == cofactor4(g, j, i),
{
    let h = without(g, j, i);
    let k = without(transposed(g), i, j);
    lemma_det3_of_rows(h);
    lemma_det3_of_rows(k);
    lemma_det3_of_transpose(row3(h, 0), row3(h, 1), row3(h, 2));
    assert(row3(k, 0) == (h(0, 0), h(1, 0), h(2, 0)));
    assert(row3(k, 1) == (h(0, 1), h(1, 1), h(2, 1)));
    assert(row3(k, 2) == (h(0, 2), h(1, 2), h(2, 2)));
    assert(sign(i, j) == sign(j, i));
}

/// The rule of cofactors by columns. The entries of a column times their
/// own cofactors sum to the determinant; the entries of a column times the
/// cofactors of another column sum to zero.
pub proof fn lemma_cofactor_expansion_by_columns(g: Grid, i: int, j: int)
    requires
        0 <= i < 4,
        0 <= j < 4,
    ensures
        cofactor4(g, 0, i) * g(0, j) + cofactor4(g, 1, i) * g(1, j) + cofactor4(g, 2, i) * g(2, j)
            + cofactor4(g, 3, i) * g(3, j) == if i == j {
            det4(g)
        } else {
            0
        },
{
    let t = transposed(g);
    lemma_cofactor_expansion(t, j, i);
    lemma_det4_transpose(g);
    lemma_cofactor_transpose(g, i, 0);
    lemma_cofactor_transpose(g, i, 1);
    lemma_cofactor_transpose(g, i, 2);
    lemma_cofactor_transpose(g, i, 3);
    assert(t(j, 0) == g(0, j) && t(j, 1) == g(1, j) && t(j, 2) == g(2, j) && t(j, 3) == g(3, j));
    assert(cofactor4(g, 0, i) * g(0, j) == g(0, j) * cofactor4(g, 0, i)) by (nonlinear_arith);
    assert(cofactor4(g, 1, i) * g(1, j) == g(1, j) * cofactor4(g, 1, i)) by (nonlinear_arith);
    assert(cofactor4(g, 2, i) * g(2, j) == g(2, j) * cofactor4(g, 2, i)) by (nonlinear_arith);
    assert(cofactor4(g, 3, i) * g(3, j) == g(3, j) * cofactor4(g, 3, i)) by (nonlinear_arith);
}

/// A matrix times its inverse is the identity, and so is the inverse times
/// the matrix: with the inverse held as numerators over one denominator, the
/// matrix times the numerators, in either order, is the identity scaled by
/// the denominator.
pub proof fn lemma_inverse_round_trip(g: Grid, inv: Inverse)
    requires
        inv.inverts(g),
    ensures
        same4(times(g, inv.grid()), scaled_identity(inv.denominator as int)),
        same4(times(inv.grid(), g), scaled_identity(inv.denominator as int)),
{
    assert forall|i: int, j: int| 0 <= i < 4 && 0 <= j < 4 implies #[trigger] times(inv.grid(), g)(
        i,
        j,
    ) == scaled_identity(inv.denominator as int)(i, j) by {
        lemma_cofactor_expansion_by_columns(g, i, j);
        assert(inv.numerators.at(i, 0) == cofactor4(g, 0, i));
        assert(inv.numerators.at(i, 1) == cofactor4(g, 1, i));
        assert(inv.numerators.at(i, 2) == cofactor4(g, 2, i));
        assert(inv.numerators.at(i, 3) == cofactor4(g, 3, i));
    }
    let n = inv.grid();
    assert forall|i: int, j: int| 0 <= i < 4 && 0 <= j < 4 implies #[trigger] times(g, n)(i, j)
        == scaled_identity(inv.denominator as int)(i, j) by {
        lemma_cofactor_expansion(g, i, j);
        assert(inv.numerators.at(0, j) == cofactor4(g, j, 0));
        assert(inv.numerators.at(1, j) == cofactor4(g, j, 1));
        assert(inv.numerators.at(2, j) == cofactor4(g, j, 2));
        assert(inv.numerators.at(3, j) == cofactor4(g, j, 3));
        assert(n(0, j) == cofactor4(g, j, 0) && n(1, j) == cofactor4(g, j, 1) && n(2, j)
            == cofactor4(g, j, 2) && n(3, j) == cofactor4(g, j, 3));
    }
}

/// A factor times a sum of four products, spread out.
proof fn lemma_spread4(n: int, a: (int, int, int, int), p: (int, int, int, int))
    ensures
        n * (a.0 * p.0 + a.1 * p.1 + a.2 * p.2 + a.3 * p.3) == n * a.0 * p.0 + n * a.1 * p.1 + n
            * a.2 * p.2 + n * a.3 * p.3,
{
    let (w, x, y, z) = (a.0 * p.0, a.1 * p.1, a.2 * p.2, a.3 * p.3);
    assert(n * (w + x + y + z) == n * w + n * x + n * y + n * z) by (nonlinear_arith);
    assert(n * (a.0 * p.0) == n * a.0 * p.0) by (nonlinear_arith);
    assert(n * (a.1 * p.1) == n * a.1 * p.1) by (nonlinear_arith);
    assert(n * (a.2 * p.2) == n * a.2 * p.2) by (nonlinear_arith);
    assert(n * (a.3 * p.3) == n * a.3 * p.3) by (nonlinear_arith);
}

/// A sum of four products times a factor, spread out.
proof fn lemma_gather4(n: (int, int, int, int), a: (int, int, int, int), p: int)
    ensures
        (n.0 * a.0 + n.1 * a.1 + n.2 * a.2 + n.3 * a.3) * p == n.0 * a.0 * p + n.1 * a.1 * p + n.2
            * a.2 * p + n.3 * a.3 * p,
{
    let (w, x, y, z) = (n.0 * a.0, n.1 * a.1, n.2 * a.2, n.3 * a.3);
    assert((w + x + y + z) * p == w * p + x * p + y * p + z * p) by (nonlinear_arith);
}

/// Applying one grid after another is applying their product.
pub proof fn lemma_applied_twice(n: Grid, g: Grid, p: (int, int, int, int))
    ensures
        applied(n, applied(g, p)) == applied(times(n, g), p),
{
    let q = applied(g, p);
    let m = times(n, g);
    assert forall|i: int| 0 <= i < 4 implies n(i, 0) * q.0 + n(i, 1) * q.1 + n(i, 2) * q.2 + n(i, 3)
        * q.3 == #[trigger] m(i, 0) * p.0 + m(i, 1) * p.1 + m(i, 2) * p.2 + m(i, 3) * p.3 by {
        lemma_spread4(n(i, 0), row4(g, 0), p);
        lemma_spread4(n(i, 1), row4(g, 1), p);
        lemma_spread4(n(i, 2), row4(g, 2), p);
        lemma_spread4(n(i, 3), row4(g, 3), p);
        let ni = row4(n, i);
        lemma_gather4(ni, (g(0, 0), g(1, 0), g(2, 0), g(3, 0)), p.0);
        lemma_gather4(ni, (g(0, 1), g(1, 1), g(2, 1), g(3, 1)), p.1);
        lemma_gather4(ni, (g(0, 2), g(1, 2), g(2, 2), g(3, 2)), p.2);
        lemma_gather4(ni, (g(0, 3), g(1, 3), g(2, 3), g(3, 3)), p.3);
    }
    assert(m(0, 0) * p.0 + m(0, 1) * p.1 + m(0, 2) * p.2 + m(0, 3) * p.3 == applied(m, p).0);
    assert(m(1, 0) * p.0 + m(1, 1) * p.1 + m(1, 2) * p.2 + m(1, 3) * p.3 == applied(m, p).1);
    assert(m(2, 0) * p.0 + m(2, 1) * p.1 + m(2, 2) * p.2 + m(2, 3) * p.3 == applied(m, p).2);
    assert(m(3, 0) * p.0 + m(3, 1) * p.1 + m(3, 2) * p.2 + m(3, 3) * p.3 == applied(m, p).3);
}

/// The inverse undoes the matrix: a column carried by the matrix and then
/// by the numerators of its inverse comes back scaled by the denominator.
pub proof fn lemma_inverse_undoes(g: Grid, inv: Inverse, p: (int, int, int, int))
    requires
        inv.inverts(g),
    ensures
        applied(inv.grid(), applied(g, p)) == (
            inv.denominator * p.0,
            inv.denominator * p.1,
            inv.denominator * p.2,
            inv.denominator * p.3,
        ),
{
    let d = inv.denominator as int;
    let m = times(inv.grid(), g);
    let e = scaled_identity(d);
    lemma_applied_twice(inv.grid(), g, p);
    lemma_inverse_round_trip(g, inv);
    assert forall|i: int, j: int| 0 <= i < 4 && 0 <= j < 4 implies #[trigger] m(i, j) == e(
        i,
        j,
    ) by {}
    assert(m(0, 0) == d && m(0, 1) == 0 && m(0, 2) == 0 && m(0, 3) == 0);
    assert(m(1, 0) == 0 && m(1, 1) == d && m(1, 2) == 0 && m(1, 3) == 0);
    assert(m(2, 0) == 0 && m(2, 1) == 0 && m(2, 2) == d && m(2, 3) == 0);
    assert(m(3, 0) == 0 && m(3, 1) == 0 && m(3, 2) == 0 && m(3, 3) == d);
}

/// A grid moves from one side of a dot product to the other by transposing.
pub proof fn lemma_transpose_moves_across(
    b: Grid,
    n: (int, int, int, int),
    v: (int, int, int, int),
)
    ensures
        dot4(applied(transposed(b), n), v) == dot4(n, applied(b, v)),
{
    lemma_gather4((b(0, 0), b(1, 0), b(2, 0), b(3, 0)), n, v.0);
    lemma_gather4((b(0, 1), b(1, 1), b(2, 1), b(3, 1)), n, v.1);
    lemma_gather4((b(0, 2), b(1, 2), b(2, 2), b(3, 2)), n, v.2);
    lemma_gather4((b(0, 3), b(1, 3), b(2, 3), b(3, 3)), n, v.3);
    lemma_spread4(n.0, row4(b, 0), v);
    lemma_spread4(n.1, row4(b, 1), v);
    lemma_spread4(n.2, row4(b, 2), v);
    lemma_spread4(n.3, row4(b, 3), v);
    lemma_mul3_orders(b(0, 0), n.0, v.0);
    lemma_mul3_orders(b(1, 0), n.1, v.0);
    lemma_mul3_orders(b(2, 0), n.2, v.0);
    lemma_mul3_orders(b(3, 0), n.3, v.0);
    lemma_mul3_orders(b(0, 1), n.0, v.1);
    lemma_mul3_orders(b(1, 1), n.1, v.1);
    lemma_mul3_orders(b(2, 1), n.2, v.1);
    lemma_mul3_orders(b(3, 1), n.3, v.1);
    lemma_mul3_orders(b(0, 2), n.0, v.2);
    lemma_mul3_orders(b(1, 2), n.1, v.2);
    lemma_mul3_orders(b(2, 2), n.2, v.2);
    lemma_mul3_orders(b(3, 2), n.3, v.2);
    lemma_mul3_orders(b(0, 3), n.0, v.3);
    lemma_mul3_orders(b(1, 3), n.1, v.3);
    lemma_mul3_orders(b(2, 3), n.2, v.3);
    lemma_mul3_orders(b(3, 3), n.3, v.3);
}

/// Why normals are carried by the transpose of the inverse. Where surface
/// directions are carried by a matrix and normals by the transpose of its
/// inverse, a normal and a direction keep their dot product, so what was
/// perpendicular stays perpendicular under any invertible matrix, uniform or
/// not. With the inverse held as numerators over a denominator, the dot
/// product comes out scaled by the denominator.
pub proof fn lemma_normals_stay_perpendicular(
    g: Grid,
    inv: Inverse,
    n: (int, int, int, int),
    t: (int, int, int, int),
)
    requires
        inv.inverts(g),
    ensures
        dot4(applied(transposed(inv.grid()), n), applied(g, t)) == inv.denominator * dot4(n, t),
        dot4(n, t) == 0 ==> dot4(applied(transposed(inv.grid()), n), applied(g, t)) == 0,
{
    let d = inv.denominator as int;
    lemma_transpose_moves_across(inv.grid(), n, applied(g, t));
    lemma_inverse_undoes(g, inv, t);
    assert(n.0 * (d * t.0) == d * (n.0 * t.0)) by (nonlinear_arith);
    assert(n.1 * (d * t.1) == d * (n.1 * t.1)) by (nonlinear_arith);
    assert(n.2 * (d * t.2) == d * (n.2 * t.2)) by (nonlinear_arith);
    assert(n.3 * (d * t.3) == d * (n.3 * t.3)) by (nonlinear_arith);
    let (w, x, y, z) = (n.0 * t.0, n.1 * t.1, n.2 * t.2, n.3 * t.3);
    assert(d * (w + x + y + z) == d * w + d * x + d * y + d * z) by (nonlinear_arith);
    assert(dot4(n, t) == 0 ==> d * dot4(n, t) == 0) by (nonlinear_arith);
}

/// A 4 by 4 determinant reads only the top left 4 by 4 corner of its grid.
pub proof fn lemma_det4_reads_corner(g: Grid, h: Grid)
    requires
        same4(g, h),
    ensures
        det4(g) == det4(h),
{
    lemma_det4_of_rows(g);
    lemma_det4_of_rows(h);
    assert forall|i: int| 0 <= i < 4 implies #[trigger] row4(g, i) == row4(h, i) by {
        assert(g(i, 0) == h(i, 0) && g(i, 1) == h(i, 1) && g(i, 2) == h(i, 2) && g(i, 3) == h(
            i,
            3,
        ));
    }
}

/// A matrix of integers and its transpose have the same determinant.
pub proof fn lemma_transpose_keeps_determinant(a: Matrix4x4<i64>, b: Matrix4x4<i64>)
    requires
        is_transpose(a, b),
    ensures
        det4(b.grid()) == det4(a.grid()),
{
    assert forall|i: int, j: int| 0 <= i < 4 && 0 <= j < 4 implies #[trigger] (b.grid())(i, j)
        == transposed(a.grid())(i, j) by {
        assert(b.at(i, j) == a.at(j, i));
    }
    lemma_det4_reads_corner(b.grid(), transposed(a.grid()));
    lemma_det4_transpose(a.grid());
}

} // verus!
