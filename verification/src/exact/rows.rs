//! Determinants written out over the rows of a matrix, and what exchanging
//! rows or transposing does to them.

use vstd::prelude::*;
use crate::exact::{cofactor3, det2, det3, det4, sign, without, Grid};
use crate::matrix::skip_index;

verus! {

/// The determinant of the 3 by 3 grid with the given rows, written out.
pub open spec fn det3_of(
    r0: (int, int, int),
    r1: (int, int, int),
    r2: (int, int, int),
) -> int {
    (r1.1 * r2.2 - r1.2 * r2.1) * r0.0 - (r1.0 * r2.2 - r1.2 * r2.0) * r0.1 + (r1.0 * r2.1 - r1.1
        * r2.0) * r0.2
}

/// Row `i` of the 3 by 3 corner of `g`.
pub open spec fn row3(g: Grid, i: int) -> (int, int, int) {
    (g(i, 0), g(i, 1), g(i, 2))
}

/// A 3 by 3 determinant is the written-out determinant of its three rows.
pub proof fn lemma_det3_of_rows(g: Grid)
    ensures
        det3(g) == det3_of(row3(g, 0), row3(g, 1), row3(g, 2)),
{
    assert(det2(without(g, 0, 0)) == g(1, 1) * g(2, 2) - g(1, 2) * g(2, 1));
    assert(det2(without(g, 0, 1)) == g(1, 0) * g(2, 2) - g(1, 2) * g(2, 0));
    assert(det2(without(g, 0, 2)) == g(1, 0) * g(2, 1) - g(1, 1) * g(2, 0));
    assert(cofactor3(g, 0, 1) == -det2(without(g, 0, 1)));
    assert(cofactor3(g, 0, 1) * g(0, 1) == -(det2(without(g, 0, 1)) * g(0, 1))) by (nonlinear_arith)
        requires
            cofactor3(g, 0, 1) == -det2(without(g, 0, 1)),
    ;
}

/// Exchanging two rows of three changes the sign of the written-out
/// determinant.
pub proof fn lemma_det3_of_swap(r0: (int, int, int), r1: (int, int, int), r2: (int, int, int))
    ensures
        det3_of(r1, r0, r2) == -det3_of(r0, r1, r2),
        det3_of(r0, r2, r1) == -det3_of(r0, r1, r2),
        det3_of(r2, r1, r0) == -det3_of(r0, r1, r2),
{
    let (a, b, c) = r0;
    let (d, e, f) = r1;
    let (g, h, i) = r2;
    lemma_det3_of_monomials(r0, r1, r2);
    lemma_det3_of_monomials(r1, r0, r2);
    lemma_det3_of_monomials(r0, r2, r1);
    lemma_det3_of_monomials(r2, r1, r0);
    lemma_mul3_orders(a, e, i);
    lemma_mul3_orders(a, f, h);
    lemma_mul3_orders(b, d, i);
    lemma_mul3_orders(b, f, g);
    lemma_mul3_orders(c, d, h);
    lemma_mul3_orders(c, e, g);
}

/// The written-out determinant as a sum of six products, each of one entry
/// from every row, in the order of the rows.
pub proof fn lemma_det3_of_monomials(r0: (int, int, int), r1: (int, int, int), r2: (int, int, int))
    ensures
        det3_of(r0, r1, r2) == r0.0 * r1.1 * r2.2 - r0.0 * r1.2 * r2.1 - r0.1 * r1.0 * r2.2 + r0.1
            * r1.2 * r2.0 + r0.2 * r1.0 * r2.1 - r0.2 * r1.1 * r2.0,
{
    let (a, b, c) = r0;
    let (d, e, f) = r1;
    let (g, h, i) = r2;
    assert((e * i - f * h) * a == a * e * i - a * f * h) by (nonlinear_arith);
    assert((d * i - f * g) * b == b * d * i - b * f * g) by (nonlinear_arith);
    assert((d * h - e * g) * c == c * d * h - c * e * g) by (nonlinear_arith);
}

/// A product of three factors does not depend on their order.
pub proof fn lemma_mul3_orders(x: int, y: int, z: int)
    ensures
        x * y * z == x * z * y,
        x * y * z == y * x * z,
        x * y * z == y * z * x,
        x * y * z == z * x * y,
        x * y * z == z * y * x,
{
    assert(x * y * z == x * z * y) by (nonlinear_arith);
    assert(x * y * z == y * x * z) by (nonlinear_arith);
    assert(x * y * z == y * z * x) by (nonlinear_arith);
    assert(x * y * z == z * x * y) by (nonlinear_arith);
    assert(x * y * z == z * y * x) by (nonlinear_arith);
}

/// Row `i` of the 4 by 4 corner of `g`.
pub open spec fn row4(g: Grid, i: int) -> (int, int, int, int) {
    (g(i, 0), g(i, 1), g(i, 2), g(i, 3))
}

/// A row of four without its entry in column `k`.
pub open spec fn drop(r: (int, int, int, int), k: int) -> (int, int, int) {
    if k <= 0 {
        (r.1, r.2, r.3)
    } else if k == 1 {
        (r.0, r.2, r.3)
    } else if k == 2 {
        (r.0, r.1, r.3)
    } else {
        (r.0, r.1, r.2)
    }
}

/// The determinant of the 3 by 3 grid made of three rows of four without
/// column `k`.
pub open spec fn minor_of(
    r1: (int, int, int, int),
    r2: (int, int, int, int),
    r3: (int, int, int, int),
    k: int,
) -> int {
    det3_of(drop(r1, k), drop(r2, k), drop(r3, k))
}

/// The determinant of the 4 by 4 grid with the given rows, written out as
/// the expansion along the first of them.
pub open spec fn det4_of(
    r0: (int, int, int, int),
    r1: (int, int, int, int),
    r2: (int, int, int, int),
    r3: (int, int, int, int),
) -> int {
    minor_of(r1, r2, r3, 0) * r0.0 - minor_of(r1, r2, r3, 1) * r0.1 + minor_of(r1, r2, r3, 2)
        * r0.2 - minor_of(r1, r2, r3, 3) * r0.3
}

/// The row of `g` that becomes row `i` once row `removed` is left out.
pub open spec fn kept_row(g: Grid, i: int, removed: int) -> (int, int, int, int) {
    row4(g, skip_index(i, removed))
}

/// A minor of a 4 by 4 grid is the written-out determinant of the three
/// rows that stay, each without the column that goes.
pub proof fn lemma_minor_of_rows(g: Grid, i: int, j: int)
    requires
        0 <= i < 4,
        0 <= j < 4,
    ensures
        det3(without(g, i, j)) == minor_of(kept_row(g, 0, i), kept_row(g, 1, i), kept_row(g, 2, i), j),
{
    let h = without(g, i, j);
    lemma_det3_of_rows(h);
    assert(row3(h, 0) == drop(kept_row(g, 0, i), j));
    assert(row3(h, 1) == drop(kept_row(g, 1, i), j));
    assert(row3(h, 2) == drop(kept_row(g, 2, i), j));
}

/// A 4 by 4 determinant is the written-out determinant of its four rows.
pub proof fn lemma_det4_of_rows(g: Grid)
    ensures
        det4(g) == det4_of(row4(g, 0), row4(g, 1), row4(g, 2), row4(g, 3)),
{
    lemma_minor_of_rows(g, 0, 0);
    lemma_minor_of_rows(g, 0, 1);
    lemma_minor_of_rows(g, 0, 2);
    lemma_minor_of_rows(g, 0, 3);
    let m1 = det3(without(g, 0, 1));
    let m3 = det3(without(g, 0, 3));
    assert((-1 * m1) * g(0, 1) == -(m1 * g(0, 1))) by (nonlinear_arith);
    assert((-1 * m3) * g(0, 3) == -(m3 * g(0, 3))) by (nonlinear_arith);
    assert((1 * det3(without(g, 0, 0))) == det3(without(g, 0, 0)));
}

/// Negating a factor negates the product.
pub proof fn lemma_neg_mul(m: int, x: int)
    ensures
        (-m) * x == -(m * x),
{
    assert((-m) * x == -(m * x)) by (nonlinear_arith);
}

/// Exchanging two of the last three rows changes the sign of one term of
/// the written-out determinant.
proof fn lemma_term_swap(
    r1: (int, int, int, int),
    r2: (int, int, int, int),
    r3: (int, int, int, int),
    k: int,
    x: int,
)
    ensures
        minor_of(r2, r1, r3, k) * x == -(minor_of(r1, r2, r3, k) * x),
        minor_of(r1, r3, r2, k) * x == -(minor_of(r1, r2, r3, k) * x),
        minor_of(r3, r2, r1, k) * x == -(minor_of(r1, r2, r3, k) * x),
{
    lemma_det3_of_swap(drop(r1, k), drop(r2, k), drop(r3, k));
    lemma_neg_mul(minor_of(r1, r2, r3, k), x);
}

/// Exchanging two of the last three rows changes the sign of the
/// written-out determinant.
pub proof fn lemma_det4_of_swap_lower(
    r0: (int, int, int, int),
    r1: (int, int, int, int),
    r2: (int, int, int, int),
    r3: (int, int, int, int),
)
    ensures
        det4_of(r0, r2, r1, r3) == -det4_of(r0, r1, r2, r3),
        det4_of(r0, r1, r3, r2) == -det4_of(r0, r1, r2, r3),
        det4_of(r0, r3, r2, r1) == -det4_of(r0, r1, r2, r3),
{
    lemma_term_swap(r1, r2, r3, 0, r0.0);
    lemma_term_swap(r1, r2, r3, 1, r0.1);
    lemma_term_swap(r1, r2, r3, 2, r0.2);
    lemma_term_swap(r1, r2, r3, 3, r0.3);
}

/// The six 2 by 2 determinants of two rows of four, by their pair of
/// columns: (0,1), (0,2), (0,3), (1,2), (1,3), (2,3).
pub open spec fn pairs_of(r2: (int, int, int, int), r3: (int, int, int, int)) -> (
    int,
    int,
    int,
    int,
    int,
    int,
) {
    (
        r2.0 * r3.1 - r2.1 * r3.0,
        r2.0 * r3.2 - r2.2 * r3.0,
        r2.0 * r3.3 - r2.3 * r3.0,
        r2.1 * r3.2 - r2.2 * r3.1,
        r2.1 * r3.3 - r2.3 * r3.1,
        r2.2 * r3.3 - r2.3 * r3.2,
    )
}

/// A 4 by 4 determinant in terms of its first two rows `a` and `b` and the
/// 2 by 2 determinants `d` of its last two.
pub open spec fn by_pairs(
    a: (int, int, int, int),
    b: (int, int, int, int),
    d: (int, int, int, int, int, int),
) -> int {
    d.5 * a.0 * b.1 - d.4 * a.0 * b.2 + d.3 * a.0 * b.3 - d.5 * a.1 * b.0 + d.2 * a.1 * b.2 - d.1
        * a.1 * b.3 + d.4 * a.2 * b.0 - d.2 * a.2 * b.1 + d.0 * a.2 * b.3 - d.3 * a.3 * b.0 + d.1
        * a.3 * b.1 - d.0 * a.3 * b.2
}

/// The written-out determinant, regrouped by its first two rows.
pub proof fn lemma_det4_by_pairs(
    r0: (int, int, int, int),
    r1: (int, int, int, int),
    r2: (int, int, int, int),
    r3: (int, int, int, int),
)
    ensures
        det4_of(r0, r1, r2, r3) == by_pairs(r0, r1, pairs_of(r2, r3)),
{
    let a = r0;
    let b = r1;
    let d = pairs_of(r2, r3);
    assert(minor_of(r1, r2, r3, 0) == d.5 * b.1 - d.4 * b.2 + d.3 * b.3);
    assert(minor_of(r1, r2, r3, 1) == d.5 * b.0 - d.2 * b.2 + d.1 * b.3);
    assert(minor_of(r1, r2, r3, 2) == d.4 * b.0 - d.2 * b.1 + d.0 * b.3);
    assert(minor_of(r1, r2, r3, 3) == d.3 * b.0 - d.1 * b.1 + d.0 * b.2);
    lemma_spread(d.5, b.1, d.4, b.2, d.3, b.3, a.0);
    lemma_spread(d.5, b.0, d.2, b.2, d.1, b.3, a.1);
    lemma_spread(d.4, b.0, d.2, b.1, d.0, b.3, a.2);
    lemma_spread(d.3, b.0, d.1, b.1, d.0, b.2, a.3);
}

/// A sum of three products times a factor, spread out.
pub proof fn lemma_spread(d1: int, b1: int, d2: int, b2: int, d3: int, b3: int, a: int)
    ensures
        (d1 * b1 - d2 * b2 + d3 * b3) * a == d1 * a * b1 - d2 * a * b2 + d3 * a * b3,
{
    assert((d1 * b1) * a == d1 * a * b1) by (nonlinear_arith);
    assert((d2 * b2) * a == d2 * a * b2) by (nonlinear_arith);
    assert((d3 * b3) * a == d3 * a * b3) by (nonlinear_arith);
    let x = d1 * b1;
    let y = d2 * b2;
    let z = d3 * b3;
    assert((x - y + z) * a == x * a - y * a + z * a) by (nonlinear_arith);
}

/// Exchanging the first two rows changes the sign of the written-out
/// determinant.
pub proof fn lemma_det4_of_swap_upper(
    r0: (int, int, int, int),
    r1: (int, int, int, int),
    r2: (int, int, int, int),
    r3: (int, int, int, int),
)
    ensures
        det4_of(r1, r0, r2, r3) == -det4_of(r0, r1, r2, r3),
{
    let a = r0;
    let b = r1;
    let d = pairs_of(r2, r3);
    lemma_det4_by_pairs(r0, r1, r2, r3);
    lemma_det4_by_pairs(r1, r0, r2, r3);
    lemma_mul3_orders(d.5, a.0, b.1);
    lemma_mul3_orders(d.4, a.0, b.2);
    lemma_mul3_orders(d.3, a.0, b.3);
    lemma_mul3_orders(d.5, a.1, b.0);
    lemma_mul3_orders(d.2, a.1, b.2);
    lemma_mul3_orders(d.1, a.1, b.3);
    lemma_mul3_orders(d.4, a.2, b.0);
    lemma_mul3_orders(d.2, a.2, b.1);
    lemma_mul3_orders(d.0, a.2, b.3);
    lemma_mul3_orders(d.3, a.3, b.0);
    lemma_mul3_orders(d.1, a.3, b.1);
    lemma_mul3_orders(d.0, a.3, b.2);
}

/// A written-out determinant with two equal rows is zero.
pub proof fn lemma_det4_of_equal_rows(
    r0: (int, int, int, int),
    r1: (int, int, int, int),
    r2: (int, int, int, int),
    r3: (int, int, int, int),
)
    requires
        r0 == r1 || r0 == r2 || r0 == r3 || r1 == r2 || r1 == r3 || r2 == r3,
    ensures
        det4_of(r0, r1, r2, r3) == 0,
{
    lemma_det4_of_swap_lower(r0, r1, r2, r3);
    lemma_det4_of_swap_upper(r0, r1, r2, r3);
    lemma_det4_of_swap_lower(r1, r0, r2, r3);
}

/// The written-out determinant with its third or its fourth row brought to
/// the top, the others keeping their order.
pub proof fn lemma_det4_of_raised(
    r0: (int, int, int, int),
    r1: (int, int, int, int),
    r2: (int, int, int, int),
    r3: (int, int, int, int),
)
    ensures
        det4_of(r2, r0, r1, r3) == det4_of(r0, r1, r2, r3),
        det4_of(r3, r0, r1, r2) == -det4_of(r0, r1, r2, r3),
{
    lemma_det4_of_swap_lower(r0, r1, r2, r3);
    lemma_det4_of_swap_upper(r0, r2, r1, r3);
    lemma_det4_of_swap_lower(r0, r1, r3, r2);
    lemma_det4_of_swap_upper(r0, r3, r1, r2);
}

/// The determinant of four rows of four as the sum over every way of
/// picking one entry from each row and each column: the product of the four
/// entries, with the sign of the permutation that picks them.
pub open spec fn leibniz(
    r0: (int, int, int, int),
    r1: (int, int, int, int),
    r2: (int, int, int, int),
    r3: (int, int, int, int),
) -> int {
    r0.0 * r1.1 * r2.2 * r3.3 - r0.0 * r1.1 * r2.3 * r3.2 - r0.0 * r1.2 * r2.1 * r3.3 + r0.0 *
        r1.2 * r2.3 * r3.1 + r0.0 * r1.3 * r2.1 * r3.2 - r0.0 * r1.3 * r2.2 * r3.1 - r0.1 * r1.0
        * r2.2 * r3.3 + r0.1 * r1.0 * r2.3 * r3.2 + r0.1 * r1.2 * r2.0 * r3.3 - r0.1 * r1.2 *
        r2.3 * r3.0 - r0.1 * r1.3 * r2.0 * r3.2 + r0.1 * r1.3 * r2.2 * r3.0 + r0.2 * r1.0 * r2.1
        * r3.3 - r0.2 * r1.0 * r2.3 * r3.1 - r0.2 * r1.1 * r2.0 * r3.3 + r0.2 * r1.1 * r2.3 *
        r3.0 + r0.2 * r1.3 * r2.0 * r3.1 - r0.2 * r1.3 * r2.1 * r3.0 - r0.3 * r1.0 * r2.1 * r3.2
        + r0.3 * r1.0 * r2.2 * r3.1 + r0.3 * r1.1 * r2.0 * r3.2 - r0.3 * r1.1 * r2.2 * r3.0 -
        r0.3 * r1.2 * r2.0 * r3.1 + r0.3 * r1.2 * r2.1 * r3.0
}

/// A product of four factors does not depend on their order.
pub proof fn lemma_mul4_orders(w: int, x: int, y: int, z: int)
    ensures
        w * x * y * z == w * x * z * y,
        w * x * y * z == w * y * x * z,
        w * x * y * z == w * y * z * x,
        w * x * y * z == w * z * x * y,
        w * x * y * z == w * z * y * x,
        w * x * y * z == x * w * y * z,
        w * x * y * z == x * w * z * y,
        w * x * y * z == x * y * w * z,
        w * x * y * z == x * y * z * w,
        w * x * y * z == x * z * w * y,
        w * x * y * z == x * z * y * w,
        w * x * y * z == y * w * x * z,
        w * x * y * z == y * w * z * x,
        w * x * y * z == y * x * w * z,
        w * x * y * z == y * x * z * w,
        w * x * y * z == y * z * w * x,
        w * x * y * z == y * z * x * w,
        w * x * y * z == z * w * x * y,
        w * x * y * z == z * w * y * x,
        w * x * y * z == z * x * w * y,
        w * x * y * z == z * x * y * w,
        w * x * y * z == z * y * w * x,
        w * x * y * z == z * y * x * w,
{
    assert(w * x * y * z == w * x * z * y) by (nonlinear_arith);
    assert(w * x * y * z == w * y * x * z) by (nonlinear_arith);
    assert(w * x * y * z == w * y * z * x) by (nonlinear_arith);
    assert(w * x * y * z == w * z * x * y) by (nonlinear_arith);
    assert(w * x * y * z == w * z * y * x) by (nonlinear_arith);
    assert(w * x * y * z == x * w * y * z) by (nonlinear_arith);
    assert(w * x * y * z == x * w * z * y) by (nonlinear_arith);
    assert(w * x * y * z == x * y * w * z) by (nonlinear_arith);
    assert(w * x * y * z == x * y * z * w) by (nonlinear_arith);
    assert(w * x * y * z == x * z * w * y) by (nonlinear_arith);
    assert(w * x * y * z == x * z * y * w) by (nonlinear_arith);
    assert(w * x * y * z == y * w * x * z) by (nonlinear_arith);
    assert(w * x * y * z == y * w * z * x) by (nonlinear_arith);
    assert(w * x * y * z == y * x * w * z) by (nonlinear_arith);
    assert(w * x * y * z == y * x * z * w) by (nonlinear_arith);
    assert(w * x * y * z == y * z * w * x) by (nonlinear_arith);
    assert(w * x * y * z == y * z * x * w) by (nonlinear_arith);
    assert(w * x * y * z == z * w * x * y) by (nonlinear_arith);
    assert(w * x * y * z == z * w * y * x) by (nonlinear_arith);
    assert(w * x * y * z == z * x * w * y) by (nonlinear_arith);
    assert(w * x * y * z == z * x * y * w) by (nonlinear_arith);
    assert(w * x * y * z == z * y * w * x) by (nonlinear_arith);
    assert(w * x * y * z == z * y * x * w) by (nonlinear_arith);
}

/// A 2 by 2 determinant times two more factors, spread out.
proof fn lemma_pair_spread(p2: int, q3: int, q2: int, p3: int, a: int, b: int)
    ensures
        (p2 * q3 - q2 * p3) * a * b == a * b * p2 * q3 - a * b * q2 * p3,
{
    let x = p2 * q3;
    let y = q2 * p3;
    assert((x - y) * a * b == x * a * b - y * a * b) by (nonlinear_arith);
    assert((p2 * q3) * a * b == a * b * p2 * q3) by (nonlinear_arith);
    assert((q2 * p3) * a * b == a * b * q2 * p3) by (nonlinear_arith);
}

/// The expansion along the first row computes the sum over permutations.
pub proof fn lemma_det4_of_is_leibniz(
    r0: (int, int, int, int),
    r1: (int, int, int, int),
    r2: (int, int, int, int),
    r3: (int, int, int, int),
)
    ensures
        det4_of(r0, r1, r2, r3) == leibniz(r0, r1, r2, r3),
{
    lemma_det4_by_pairs(r0, r1, r2, r3);
    lemma_pair_spread(r2.2, r3.3, r2.3, r3.2, r0.0, r1.1);
    lemma_pair_spread(r2.1, r3.3, r2.3, r3.1, r0.0, r1.2);
    lemma_pair_spread(r2.1, r3.2, r2.2, r3.1, r0.0, r1.3);
    lemma_pair_spread(r2.2, r3.3, r2.3, r3.2, r0.1, r1.0);
    lemma_pair_spread(r2.0, r3.3, r2.3, r3.0, r0.1, r1.2);
    lemma_pair_spread(r2.0, r3.2, r2.2, r3.0, r0.1, r1.3);
    lemma_pair_spread(r2.1, r3.3, r2.3, r3.1, r0.2, r1.0);
    lemma_pair_spread(r2.0, r3.3, r2.3, r3.0, r0.2, r1.1);
    lemma_pair_spread(r2.0, r3.1, r2.1, r3.0, r0.2, r1.3);
    lemma_pair_spread(r2.1, r3.2, r2.2, r3.1, r0.3, r1.0);
    lemma_pair_spread(r2.0, r3.2, r2.2, r3.0, r0.3, r1.1);
    lemma_pair_spread(r2.0, r3.1, r2.1, r3.0, r0.3, r1.2);
}

/// The four rows of four read as columns.
pub open spec fn columns(
    r0: (int, int, int, int),
    r1: (int, int, int, int),
    r2: (int, int, int, int),
    r3: (int, int, int, int),
) -> ((int, int, int, int), (int, int, int, int), (int, int, int, int), (int, int, int, int)) {
    ((r0.0, r1.0, r2.0, r3.0), (r0.1, r1.1, r2.1, r3.1), (r0.2, r1.2, r2.2, r3.2), (
        r0.3,
        r1.3,
        r2.3,
        r3.3,
    ))
}

/// Transposing does not change the written-out determinant.
pub proof fn lemma_det4_of_transpose(
    r0: (int, int, int, int),
    r1: (int, int, int, int),
    r2: (int, int, int, int),
    r3: (int, int, int, int),
)
    ensures
        det4_of(
            columns(r0, r1, r2, r3).0,
            columns(r0, r1, r2, r3).1,
            columns(r0, r1, r2, r3).2,
            columns(r0, r1, r2, r3).3,
        ) == det4_of(r0, r1, r2, r3),
{
    let c = columns(r0, r1, r2, r3);
    lemma_det4_of_is_leibniz(r0, r1, r2, r3);
    lemma_det4_of_is_leibniz(c.0, c.1, c.2, c.3);
    lemma_mul4_orders(r0.0, r1.1, r2.2, r3.3);
    lemma_mul4_orders(r0.0, r1.1, r2.3, r3.2);
    lemma_mul4_orders(r0.0, r1.2, r2.1, r3.3);
    lemma_mul4_orders(r0.0, r1.2, r2.3, r3.1);
    lemma_mul4_orders(r0.0, r1.3, r2.1, r3.2);
    lemma_mul4_orders(r0.0, r1.3, r2.2, r3.1);
    lemma_mul4_orders(r0.1, r1.0, r2.2, r3.3);
    lemma_mul4_orders(r0.1, r1.0, r2.3, r3.2);
    lemma_mul4_orders(r0.1, r1.2, r2.0, r3.3);
    lemma_mul4_orders(r0.1, r1.2, r2.3, r3.0);
    lemma_mul4_orders(r0.1, r1.3, r2.0, r3.2);
    lemma_mul4_orders(r0.1, r1.3, r2.2, r3.0);
    lemma_mul4_orders(r0.2, r1.0, r2.1, r3.3);
    lemma_mul4_orders(r0.2, r1.0, r2.3, r3.1);
    lemma_mul4_orders(r0.2, r1.1, r2.0, r3.3);
    lemma_mul4_orders(r0.2, r1.1, r2.3, r3.0);
    lemma_mul4_orders(r0.2, r1.3, r2.0, r3.1);
    lemma_mul4_orders(r0.2, r1.3, r2.1, r3.0);
    lemma_mul4_orders(r0.3, r1.0, r2.1, r3.2);
    lemma_mul4_orders(r0.3, r1.0, r2.2, r3.1);
    lemma_mul4_orders(r0.3, r1.1, r2.0, r3.2);
    lemma_mul4_orders(r0.3, r1.1, r2.2, r3.0);
    lemma_mul4_orders(r0.3, r1.2, r2.0, r3.1);
    lemma_mul4_orders(r0.3, r1.2, r2.1, r3.0);
}

/// Transposing does not change the written-out determinant of three rows.
pub proof fn lemma_det3_of_transpose(r0: (int, int, int), r1: (int, int, int), r2: (int, int, int))
    ensures
        det3_of((r0.0, r1.0, r2.0), (r0.1, r1.1, r2.1), (r0.2, r1.2, r2.2)) == det3_of(r0, r1, r2),
{
    lemma_det3_of_monomials(r0, r1, r2);
    lemma_det3_of_monomials((r0.0, r1.0, r2.0), (r0.1, r1.1, r2.1), (r0.2, r1.2, r2.2));
    lemma_mul3_orders(r0.0, r1.1, r2.2);
    lemma_mul3_orders(r0.0, r1.2, r2.1);
    lemma_mul3_orders(r0.1, r1.0, r2.2);
    lemma_mul3_orders(r0.1, r1.2, r2.0);
    lemma_mul3_orders(r0.2, r1.0, r2.1);
    lemma_mul3_orders(r0.2, r1.1, r2.0);
}

} // verus!
