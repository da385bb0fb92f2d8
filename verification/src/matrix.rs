//! Square matrices as grids: reading cells, rows and columns, transposing,
//! and cutting out the submatrices from which minors and cofactors are built.
//!
//! The grids are generic in what a cell holds; nothing here adds or
//! multiplies.

use vstd::prelude::*;

verus! {

/// The index in the full matrix of row (or column) `k` of the submatrix that
/// leaves out row (or column) `removed`.
pub open spec fn skip_index(k: int, removed: int) -> int {
    if k >= removed {
        k + 1
    } else {
        k
    }
}

/// Whether the cofactor at row `i`, column `j` is the negated minor.
pub open spec fn cofactor_negates(i: int, j: int) -> bool {
    (i + j) % 2 == 1
}

/// Whether the cofactor at row `i`, column `j` is the minor with its sign
/// changed: the signs alternate like the squares of a chessboard, starting
/// with "unchanged" in the top left corner.
pub fn cofactor_is_negated(i: usize, j: usize) -> (negated: bool)
    ensures
        negated == cofactor_negates(i as int, j as int),
{
    (i % 2 == 1) != (j % 2 == 1)
}

/// The index in the full matrix of row (or column) `k` of a submatrix
/// without row (or column) `removed`: indices below `removed` stay, the others
/// move up by one.
pub fn skipping(k: usize, removed: usize) -> (index: usize)
    requires
        k < usize::MAX,
    ensures
        index == skip_index(k as int, removed as int),
{
    if k >= removed {
        k + 1
    } else {
        k
    }
}

/// A 2 by 2 grid.
#[derive(Clone, Copy, Debug)]
pub struct Matrix2x2<T: Copy> {
    pub elements: [[T; 2]; 2],
}

/// A 3 by 3 grid.
#[derive(Clone, Copy, Debug)]
pub struct Matrix3x3<T: Copy> {
    pub elements: [[T; 3]; 3],
}

/// A 4 by 4 grid.
#[derive(Clone, Copy, Debug)]
pub struct Matrix4x4<T: Copy> {
    pub elements: [[T; 4]; 4],
}

impl<T: Copy> Matrix2x2<T> {
    /// The cell at row `i`, column `j`.
    pub open spec fn at(self, i: int, j: int) -> T {
        self.elements@[i]@[j]
    }
}

impl<T: Copy> Matrix3x3<T> {
    /// The cell at row `i`, column `j`.
    pub open spec fn at(self, i: int, j: int) -> T {
        self.elements@[i]@[j]
    }

    /// The grid with the given rows.
    pub fn from_elements(elements: [[T; 3]; 3]) -> (m: Self)
        ensures
            m.elements == elements,
    {
        Matrix3x3 { elements }
    }

    /// The grid without row `row` and column `col`. A `row` or `col` past
    /// the last index removes the last row or column.
    pub fn submatrix(&self, row: usize, col: usize) -> (sub: Matrix2x2<T>)
        ensures
            forall|i: int, j: int|
                0 <= i < 2 && 0 <= j < 2 ==> sub.at(i, j) == self.at(
                    skip_index(i, row as int),
                    skip_index(j, col as int),
                ),
    {
        let r0: usize = skipping(0, row);
        let r1: usize = skipping(1, row);
        let c0: usize = skipping(0, col);
        let c1: usize = skipping(1, col);
        Matrix2x2 {
            elements: [
                [self.elements[r0][c0], self.elements[r0][c1]],
                [self.elements[r1][c0], self.elements[r1][c1]],
            ],
        }
    }
}

impl<T: Copy> Matrix4x4<T> {
    /// The grid without row `row` and column `col`. A `row` or `col` past
    /// the last index removes the last row or column.
    pub fn submatrix(&self, row: usize, col: usize) -> (sub: Matrix3x3<T>)
        ensures
            forall|i: int, j: int|
                0 <= i < 3 && 0 <= j < 3 ==> sub.at(i, j) == self.at(
                    skip_index(i, row as int),
                    skip_index(j, col as int),
                ),
    {
        let r0: usize = skipping(0, row);
        let r1: usize = skipping(1, row);
        let r2: usize = skipping(2, row);
        let c0: usize = skipping(0, col);
        let c1: usize = skipping(1, col);
        let c2: usize = skipping(2, col);
        Matrix3x3 {
            elements: [
                [self.elements[r0][c0], self.elements[r0][c1], self.elements[r0][c2]],
                [self.elements[r1][c0], self.elements[r1][c1], self.elements[r1][c2]],
                [self.elements[r2][c0], self.elements[r2][c1], self.elements[r2][c2]],
            ],
        }
    }

    /// The cell at row `i`, column `j`.
    pub open spec fn at(self, i: int, j: int) -> T {
        self.elements@[i]@[j]
    }

    /// The grid with the given rows.
    pub fn from_elements(elements: [[T; 4]; 4]) -> (m: Self)
        ensures
            m.elements == elements,
    {
        Matrix4x4 { elements }
    }

    /// The cell at row `i`, column `j`.
    pub fn get(&self, i: usize, j: usize) -> (cell: T)
        requires
            i < 4,
            j < 4,
        ensures
            cell == self.at(i as int, j as int),
    {
        self.elements[i][j]
    }

    /// Row `i`, left to right.
    pub fn row(&self, i: usize) -> (r: [T; 4])
        requires
            i < 4,
        ensures
            forall|j: int| 0 <= j < 4 ==> r@[j] == self.at(i as int, j),
    {
        self.elements[i]
    }

    /// Column `j`, top to bottom.
    pub fn col(&self, j: usize) -> (c: [T; 4])
        requires
            j < 4,
        ensures
            forall|i: int| 0 <= i < 4 ==> c@[i] == self.at(i, j as int),
    {
        [self.get(0, j), self.get(1, j), self.get(2, j), self.get(3, j)]
    }

    /// The grid flipped over its main diagonal.
    pub fn transpose(&self) -> (m: Self)
        ensures
            is_transpose(*self, m),
    {
        Matrix4x4 {
            elements: [
                [self.get(0, 0), self.get(1, 0), self.get(2, 0), self.get(3, 0)],
                [self.get(0, 1), self.get(1, 1), self.get(2, 1), self.get(3, 1)],
                [self.get(0, 2), self.get(1, 2), self.get(2, 2), self.get(3, 2)],
                [self.get(0, 3), self.get(1, 3), self.get(2, 3), self.get(3, 3)],
            ],
        }
    }
}

/// Whether `b` is `a` flipped over its main diagonal.
pub open spec fn is_transpose<T: Copy>(a: Matrix4x4<T>, b: Matrix4x4<T>) -> bool {
    forall|i: int, j: int| 0 <= i < 4 && 0 <= j < 4 ==> b.at(i, j) == a.at(j, i)
}

/// Transposing twice gives back every cell of the matrix.
pub proof fn lemma_transpose_twice<T: Copy>(a: Matrix4x4<T>, b: Matrix4x4<T>, c: Matrix4x4<T>)
    requires
        is_transpose(a, b),
        is_transpose(b, c),
    ensures
        forall|i: int, j: int| 0 <= i < 4 && 0 <= j < 4 ==> c.at(i, j) == a.at(i, j),
{
    assert forall|i: int, j: int| 0 <= i < 4 && 0 <= j < 4 implies c.at(i, j) == a.at(i, j) by {
        assert(c.at(i, j) == b.at(j, i));
        assert(b.at(j, i) == a.at(i, j));
    }
}

/// Removing a row and a column commutes with transposing: the submatrix of
/// the transpose without row `row` and column `col` is the transpose of the
/// submatrix without row `col` and column `row`.
pub proof fn lemma_submatrix_of_transpose<T: Copy>(
    a: Matrix4x4<T>,
    b: Matrix4x4<T>,
    row: int,
    col: int,
    i: int,
    j: int,
)
    requires
        is_transpose(a, b),
        0 <= row,
        0 <= col,
        0 <= i < 3,
        0 <= j < 3,
    ensures
        b.at(skip_index(i, row), skip_index(j, col)) == a.at(
            skip_index(j, col),
            skip_index(i, row),
        ),
{
}

} // verus!
