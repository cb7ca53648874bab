//! Dense row-major matrices of fixed-point scalars.
//!
//! A matrix is viewed as a sequence of rows of integer entries; every
//! operation's contract states the resulting entries exactly, in terms of the
//! fixed-point arithmetic of [`crate::scalar`]. Square-only operations
//! (determinant by cofactor expansion, minors, cofactors, the inverse) are
//! restricted by precondition to the shapes they are defined on.

use vstd::prelude::*;
use vstd::pervasive::VecAdditionalExecFns;
use crate::scalar::{
    Scalar, SCALE, in_range, s_add, s_sub, s_neg, s_mul, s_div, s_sin, s_cos,
};
use crate::tuple::{Tuple, TupleModel};

verus! {

/// The sequence has `rows` rows of `cols` entries each.
pub open spec fn mat_wf(m: Seq<Seq<int>>, rows: int, cols: int) -> bool {
    m.len() == rows && forall|i: int| 0 <= i < rows ==> (#[trigger] m[i]).len() == cols
}

/// Every entry fits in the representable fixed-point range.
pub open spec fn mat_in_range(m: Seq<Seq<int>>) -> bool {
    forall|i: int, j: int|
        0 <= i < m.len() && 0 <= j < m[i].len() ==> in_range(#[trigger] m[i][j])
}

/// The `n`-by-`n` identity matrix (ones on the diagonal).
pub open spec fn mat_identity(n: int) -> Seq<Seq<int>> {
    Seq::new(
        n as nat,
        |i: int| Seq::new(n as nat, |j: int| if i == j { SCALE as int } else { 0 }),
    )
}

/// The transpose of a matrix with `cols` columns.
pub open spec fn mat_transpose(m: Seq<Seq<int>>, cols: int) -> Seq<Seq<int>> {
    Seq::new(cols as nat, |i: int| Seq::new(m.len(), |j: int| m[j][i]))
}

/// The first `k` terms of the product-row sum: entries of row `a` times the
/// `j`-th column of `b`, accumulated left to right.
pub open spec fn dot_prefix(a: Seq<int>, b: Seq<Seq<int>>, j: int, k: int) -> int
    decreases k,
{
    if k <= 0 {
        0
    } else {
        s_add(dot_prefix(a, b, j, k - 1), s_mul(a[k - 1], b[k - 1][j]))
    }
}

/// The matrix product of `a` and `b`, where `b` has `bcols` columns.
pub open spec fn mat_mul(a: Seq<Seq<int>>, b: Seq<Seq<int>>, bcols: int) -> Seq<Seq<int>> {
    Seq::new(
        a.len(),
        |i: int| Seq::new(bcols as nat, |j: int| dot_prefix(a[i], b, j, b.len() as int)),
    )
}

/// Index mapping that skips one removed row or column.
pub open spec fn skip_index(i: int, cut: int) -> int {
    if i < cut {
        i
    } else {
        i + 1
    }
}

/// The matrix with row `row` and column `col` removed.
pub open spec fn mat_submatrix(m: Seq<Seq<int>>, row: int, col: int) -> Seq<Seq<int>> {
    Seq::new(
        (m.len() - 1) as nat,
        |i: int|
            Seq::new(
                (m[0].len() - 1) as nat,
                |j: int| m[skip_index(i, row)][skip_index(j, col)],
            ),
    )
}

/// The determinant: `ad - bc` on a 2-by-2 matrix, otherwise the Laplace
/// expansion along row zero.
pub open spec fn mat_det(m: Seq<Seq<int>>) -> int
    decreases m.len(), 3int, 0int,
{
    if m.len() == 2 {
        s_sub(s_mul(m[0][0], m[1][1]), s_mul(m[0][1], m[1][0]))
    } else {
        det_expand(m, m[0].len() as int)
    }
}

/// The first `j` terms of the Laplace expansion along row zero.
pub open spec fn det_expand(m: Seq<Seq<int>>, j: int) -> int
    decreases m.len(), 2int, j,
{
    if j <= 0 {
        0
    } else {
        s_add(det_expand(m, j - 1), s_mul(m[0][j - 1], mat_cofactor(m, 0, j - 1)))
    }
}

/// The signed minor at `(row, col)`.
pub open spec fn mat_cofactor(m: Seq<Seq<int>>, row: int, col: int) -> int
    decreases m.len(), 1int, 0int,
{
    if (row + col) % 2 == 1 {
        s_neg(mat_minor(m, row, col))
    } else {
        mat_minor(m, row, col)
    }
}

/// The determinant of the submatrix at `(row, col)`.
pub open spec fn mat_minor(m: Seq<Seq<int>>, row: int, col: int) -> int
    decreases m.len(), 0int, 0int,
{
    if m.len() >= 1 {
        mat_det(mat_submatrix(m, row, col))
    } else {
        0
    }
}

/// The inverse: entry `(i, j)` is the cofactor at `(j, i)` divided by the
/// determinant (meaningful when the determinant is not zero).
pub open spec fn mat_inverse(m: Seq<Seq<int>>) -> Seq<Seq<int>> {
    Seq::new(
        m.len(),
        |i: int|
            Seq::new(m.len(), |j: int| s_div(mat_cofactor(m, j, i), mat_det(m))),
    )
}

/// A dense row-major matrix of fixed-point scalars.
#[derive(Clone, Debug, PartialEq)]
pub struct Matrix {
    pub nrows: usize,
    pub ncols: usize,
    pub vals: Vec<Scalar>,
}

impl View for Matrix {
    type V = Seq<Seq<int>>;

    open spec fn view(&self) -> Seq<Seq<int>> {
        Seq::new(
            self.nrows as nat,
            |i: int|
                Seq::new(
                    self.ncols as nat,
                    |j: int| self.vals@[i * (self.ncols as int) + j]@,
                ),
        )
    }
}

/// A row-major position lies inside the value buffer.
proof fn lemma_index_bound(row: int, col: int, nrows: int, ncols: int)
    requires
        0 <= row < nrows,
        0 <= col < ncols,
    ensures
        0 <= row * ncols + col < nrows * ncols,
{
    assert(0 <= row * ncols + col < nrows * ncols) by (nonlinear_arith)
        requires
            0 <= row < nrows,
            0 <= col < ncols,
    ;
}

/// Distinct in-bounds positions have distinct row-major indices.
proof fn lemma_index_injective(i: int, j: int, row: int, col: int, ncols: int)
    requires
        0 <= j < ncols,
        0 <= col < ncols,
        0 <= i,
        0 <= row,
        i != row || j != col,
    ensures
        i * ncols + j != row * ncols + col,
{
    assert(i * ncols + j != row * ncols + col) by (nonlinear_arith)
        requires
            0 <= j < ncols,
            0 <= col < ncols,
            0 <= i,
            0 <= row,
            i != row || j != col,
    ;
}

impl Matrix {
    /// The value buffer holds exactly one scalar per position.
    pub open spec fn wf(&self) -> bool {
        self.vals@.len() == (self.nrows as int) * (self.ncols as int)
    }

    /// A well-formed matrix views as `nrows` rows of `ncols` in-range
    /// entries.
    pub proof fn lemma_view_shape(&self)
        requires
            self.wf(),
        ensures
            mat_wf(self@, self.nrows as int, self.ncols as int),
            mat_in_range(self@),
    {
        assert forall|i: int, j: int|
            0 <= i < self@.len() && 0 <= j < self@[i].len() implies in_range(
            #[trigger] self@[i][j],
        ) by {
            lemma_index_bound(i, j, self.nrows as int, self.ncols as int);
        }
    }

    /// The all-zero matrix of the given shape.
    pub fn new(nrows: usize, ncols: usize) -> (r: Matrix)
        requires
            (nrows as int) * (ncols as int) <= usize::MAX,
        ensures
            r.wf(),
            r.nrows == nrows,
            r.ncols == ncols,
            forall|i: int, j: int|
                0 <= i < nrows && 0 <= j < ncols ==> #[trigger] r@[i][j] == 0,
    {
        proof {
            assert((nrows as int) * (ncols as int) >= 0) by (nonlinear_arith)
                requires
                    nrows >= 0,
                    ncols >= 0,
            ;
        }
        let n = nrows * ncols;
        let mut vals: Vec<Scalar> = Vec::new();
        let mut k: usize = 0;
        while k < n
            invariant
                k <= n,
                vals@.len() == k,
                forall|l: int| 0 <= l < k ==> (#[trigger] vals@[l])@ == 0,
            decreases n - k,
        {
            vals.push(Scalar::zero());
            k = k + 1;
        }
        let r = Matrix { nrows, ncols, vals };
        proof {
            assert forall|i: int, j: int|
                0 <= i < nrows && 0 <= j < ncols implies #[trigger] r@[i][j] == 0 by {
                lemma_index_bound(i, j, nrows as int, ncols as int);
            }
        }
        r
    }

    /// The shape as `(rows, columns)`.
    pub fn shape(&self) -> (r: (usize, usize))
        ensures
            r.0 == self.nrows,
            r.1 == self.ncols,
    {
        (self.nrows, self.ncols)
    }

    /// A matrix from a row-major slice of entries; `None` when the count
    /// does not match the shape.
    pub fn from_array(nrows: usize, ncols: usize, vals: &[Scalar]) -> (r: Option<Matrix>)
        requires
            (nrows as int) * (ncols as int) <= usize::MAX,
        ensures
            (vals@.len() == (nrows as int) * (ncols as int)) <==> r is Some,
            r is Some ==> {
                &&& r->0.wf()
                &&& r->0.nrows == nrows
                &&& r->0.ncols == ncols
                &&& forall|i: int, j: int|
                    0 <= i < nrows && 0 <= j < ncols ==> #[trigger] r->0@[i][j] == vals@[
                        i * (ncols as int) + j
                    ]@
            },
    {
        proof {
            assert((nrows as int) * (ncols as int) >= 0) by (nonlinear_arith)
                requires
                    nrows >= 0,
                    ncols >= 0,
            ;
        }
        if vals.len() != nrows * ncols {
            return None;
        }
        let vec = vstd::slice::slice_to_vec(vals);
        let r = Matrix { nrows, ncols, vals: vec };
        proof {
            assert forall|i: int, j: int|
                0 <= i < nrows && 0 <= j < ncols implies #[trigger] r@[i][j] == vals@[
                i * (ncols as int) + j
            ]@ by {
                lemma_index_bound(i, j, nrows as int, ncols as int);
            }
        }
        Some(r)
    }

    /// The row-major buffer index of an in-bounds position; `None` when the
    /// position is outside the matrix.
    fn get_index(&self, row: usize, col: usize) -> (r: Option<usize>)
        requires
            self.wf(),
        ensures
            (row < self.nrows && col < self.ncols) <==> r is Some,
            r is Some ==> r->0 == row * (self.ncols as int) + col < self.vals@.len(),
    {
        if row >= self.nrows || col >= self.ncols {
            return None;
        }
        let len = self.vals.len();
        proof {
            lemma_index_bound(row as int, col as int, self.nrows as int, self.ncols as int);
            assert((row as int) * (self.ncols as int) + (col as int) < len as int);
        }
        Some(row * self.ncols + col)
    }

    /// The entry at an in-bounds position (a bounds-checked [`Matrix::get`]
    /// stands beside it).
    pub fn entry(&self, row: usize, col: usize) -> (r: Scalar)
        requires
            self.wf(),
            row < self.nrows,
            col < self.ncols,
        ensures
            r@ == self@[row as int][col as int],
    {
        let len = self.vals.len();
        proof {
            lemma_index_bound(row as int, col as int, self.nrows as int, self.ncols as int);
            assert((row as int) * (self.ncols as int) + (col as int) < len as int);
        }
        self.vals[row * self.ncols + col]
    }

    /// The entry at a position, or `None` when the position is outside the
    /// matrix.
    pub fn get(&self, row: usize, col: usize) -> (r: Option<Scalar>)
        requires
            self.wf(),
        ensures
            (row < self.nrows && col < self.ncols) <==> r is Some,
            r is Some ==> r->0@ == self@[row as int][col as int],
    {
        match self.get_index(row, col) {
            None => None,
            Some(index) => Some(self.vals[index]),
        }
    }

    /// Replace the entry at a position, returning the previous entry; `None`
    /// (and no change) when the position is outside the matrix.
    pub fn set(&mut self, row: usize, col: usize, val: Scalar) -> (r: Option<Scalar>)
        requires
            old(self).wf(),
        ensures
            final(self).wf(),
            final(self).nrows == old(self).nrows,
            final(self).ncols == old(self).ncols,
            (row < old(self).nrows && col < old(self).ncols) <==> r is Some,
            r is Some ==> {
                &&& r->0@ == old(self)@[row as int][col as int]
                &&& final(self)@ == old(self)@.update(
                    row as int,
                    old(self)@[row as int].update(col as int, val@),
                )
            },
            r is None ==> *final(self) == *old(self),
    {
        match self.get_index(row, col) {
            None => None,
            Some(index) => {
                let old_val = self.vals[index];
                self.vals.set(index, val);
                proof {
                    self.lemma_view_after_update(*old(self), row as int, col as int, val);
                }
                Some(old_val)
            },
        }
    }

    /// Updating one buffer slot updates exactly one viewed entry.
    proof fn lemma_view_after_update(&self, pre: Matrix, row: int, col: int, val: Scalar)
        requires
            pre.wf(),
            self.nrows == pre.nrows,
            self.ncols == pre.ncols,
            0 <= row < pre.nrows,
            0 <= col < pre.ncols,
            self.vals@ == pre.vals@.update(row * (pre.ncols as int) + col, val),
        ensures
            self@ == pre@.update(row, pre@[row].update(col, val@)),
    {
        let target = pre@.update(row, pre@[row].update(col, val@));
        lemma_index_bound(row, col, pre.nrows as int, pre.ncols as int);
        assert forall|i: int| 0 <= i < self.nrows implies self@[i] =~= target[i] by {
            assert forall|j: int| 0 <= j < self.ncols implies self@[i][j] == target[i][j] by {
                lemma_index_bound(i, j, pre.nrows as int, pre.ncols as int);
                if i == row && j == col {
                } else {
                    lemma_index_injective(i, j, row, col, pre.ncols as int);
                }
            }
        }
        assert(self@ =~~= target);
    }

    /// The identity matrix of the given size.
    pub fn identity(size: usize) -> (r: Matrix)
        requires
            (size as int) * (size as int) <= usize::MAX,
        ensures
            r.wf(),
            r.nrows == size,
            r.ncols == size,
            r@ == mat_identity(size as int),
    {
        let mut matrix = Matrix::new(size, size);
        let mut i: usize = 0;
        while i < size
            invariant
                i <= size,
                matrix.wf(),
                matrix.nrows == size,
                matrix.ncols == size,
                forall|a: int, b: int|
                    0 <= a < size && 0 <= b < size ==> #[trigger] matrix@[a][b] == (
                    if a == b && a < i {
                        SCALE as int
                    } else {
                        0
                    }),
            decreases size - i,
        {
            let _ = matrix.set(i, i, Scalar::one());
            i = i + 1;
        }
        proof {
            assert(matrix@ =~~= mat_identity(size as int));
        }
        matrix
    }
    /// The transpose.
    pub fn transpose(&self) -> (r: Matrix)
        requires
            self.wf(),
        ensures
            r.wf(),
            r.nrows == self.ncols,
            r.ncols == self.nrows,
            r@ == mat_transpose(self@, self.ncols as int),
    {
        let len = self.vals.len();
        proof {
            assert((self.ncols as int) * (self.nrows as int) == (self.nrows as int) * (
            self.ncols as int)) by (nonlinear_arith);
            assert((self.ncols as int) * (self.nrows as int) == len as int);
        }
        let mut out = Matrix::new(self.ncols, self.nrows);
        let mut i: usize = 0;
        while i < self.nrows
            invariant
                self.wf(),
                i <= self.nrows,
                out.wf(),
                out.nrows == self.ncols,
                out.ncols == self.nrows,
                forall|a: int, b: int|
                    0 <= a < self.ncols && 0 <= b < i ==> #[trigger] out@[a][b] == self@[b][a],
            decreases self.nrows - i,
        {
            let mut j: usize = 0;
            while j < self.ncols
                invariant
                    self.wf(),
                    i < self.nrows,
                    j <= self.ncols,
                    out.wf(),
                    out.nrows == self.ncols,
                    out.ncols == self.nrows,
                    forall|a: int, b: int|
                        0 <= a < self.ncols && 0 <= b < i ==> #[trigger] out@[a][b] == self@[b][
                            a
                        ],
                    forall|a: int|
                        0 <= a < j ==> #[trigger] out@[a][i as int] == self@[i as int][a],
                decreases self.ncols - j,
            {
                let _ = out.set(j, i, self.entry(i, j));
                j = j + 1;
            }
            i = i + 1;
        }
        proof {
            assert forall|a: int| 0 <= a < self.ncols implies out@[a] =~= mat_transpose(
                self@,
                self.ncols as int,
            )[a] by {}
            assert(out@ =~~= mat_transpose(self@, self.ncols as int));
        }
        out
    }

    /// The matrix product; `None` when the inner dimensions disagree.
    pub fn mul(&self, rhs: &Matrix) -> (r: Option<Matrix>)
        requires
            self.wf(),
            rhs.wf(),
            (self.nrows as int) * (rhs.ncols as int) <= usize::MAX,
        ensures
            (self.ncols == rhs.nrows) <==> r is Some,
            r is Some ==> {
                &&& r->0.wf()
                &&& r->0.nrows == self.nrows
                &&& r->0.ncols == rhs.ncols
                &&& r->0@ == mat_mul(self@, rhs@, rhs.ncols as int)
            },
    {
        if self.ncols != rhs.nrows {
            return None;
        }
        let mut prod = Matrix::new(self.nrows, rhs.ncols);
        let ghost goal = mat_mul(self@, rhs@, rhs.ncols as int);
        let mut i: usize = 0;
        while i < self.nrows
            invariant
                self.wf(),
                rhs.wf(),
                self.ncols == rhs.nrows,
                i <= self.nrows,
                prod.wf(),
                prod.nrows == self.nrows,
                prod.ncols == rhs.ncols,
                goal == mat_mul(self@, rhs@, rhs.ncols as int),
                forall|a: int, b: int|
                    0 <= a < i && 0 <= b < rhs.ncols ==> #[trigger] prod@[a][b] == goal[a][b],
            decreases self.nrows - i,
        {
            let mut j: usize = 0;
            while j < rhs.ncols
                invariant
                    self.wf(),
                    rhs.wf(),
                    self.ncols == rhs.nrows,
                    i < self.nrows,
                    j <= rhs.ncols,
                    prod.wf(),
                    prod.nrows == self.nrows,
                    prod.ncols == rhs.ncols,
                    goal == mat_mul(self@, rhs@, rhs.ncols as int),
                    forall|a: int, b: int|
                        0 <= a < i && 0 <= b < rhs.ncols ==> #[trigger] prod@[a][b] == goal[a][
                            b
                        ],
                    forall|b: int| 0 <= b < j ==> #[trigger] prod@[i as int][b] == goal[i as int][b],
                decreases rhs.ncols - j,
            {
                let mut cell = Scalar::zero();
                let mut k: usize = 0;
                while k < self.ncols
                    invariant
                        self.wf(),
                        rhs.wf(),
                        self.ncols == rhs.nrows,
                        i < self.nrows,
                        j < rhs.ncols,
                        k <= self.ncols,
                        cell@ == dot_prefix(self@[i as int], rhs@, j as int, k as int),
                    decreases self.ncols - k,
                {
                    cell = cell.add(self.entry(i, k).mul(rhs.entry(k, j)));
                    k = k + 1;
                }
                let _ = prod.set(i, j, cell);
                j = j + 1;
            }
            i = i + 1;
        }
        proof {
            assert forall|a: int| 0 <= a < self.nrows implies prod@[a] =~= goal[a] by {}
            assert(prod@ =~~= goal);
        }
        Some(prod)
    }

    /// The product with a tuple taken as a 4-by-1 column; `None` when the
    /// matrix does not have four columns.
    pub fn mul_tuple(&self, rhs: &Tuple) -> (r: Option<Tuple>)
        requires
            self.wf(),
            self.ncols == 4 ==> self.nrows == 4,
        ensures
            (self.ncols == 4) <==> r is Some,
            r is Some ==> r->0@ == mat_tuple_mul(self@, rhs@),
    {
        if self.ncols != 4 {
            return None;
        }
        let x = self.entry(0, 0).mul(rhs.x()).add(self.entry(0, 1).mul(rhs.y())).add(
            self.entry(0, 2).mul(rhs.z()),
        ).add(self.entry(0, 3).mul(rhs.w()));
        let y = self.entry(1, 0).mul(rhs.x()).add(self.entry(1, 1).mul(rhs.y())).add(
            self.entry(1, 2).mul(rhs.z()),
        ).add(self.entry(1, 3).mul(rhs.w()));
        let z = self.entry(2, 0).mul(rhs.x()).add(self.entry(2, 1).mul(rhs.y())).add(
            self.entry(2, 2).mul(rhs.z()),
        ).add(self.entry(2, 3).mul(rhs.w()));
        let w = self.entry(3, 0).mul(rhs.x()).add(self.entry(3, 1).mul(rhs.y())).add(
            self.entry(3, 2).mul(rhs.z()),
        ).add(self.entry(3, 3).mul(rhs.w()));
        Some(Tuple::new(x, y, z, w))
    }
    /// The matrix with one row and one column removed.
    pub fn submatrix(&self, row: usize, col: usize) -> (r: Matrix)
        requires
            self.wf(),
            row < self.nrows,
            col < self.ncols,
        ensures
            r.wf(),
            r.nrows == self.nrows - 1,
            r.ncols == self.ncols - 1,
            r@ == mat_submatrix(self@, row as int, col as int),
    {
        let len = self.vals.len();
        proof {
            assert(((self.nrows - 1) as int) * (((self.ncols - 1)) as int) <= (self.nrows as int)
                * (self.ncols as int)) by (nonlinear_arith)
                requires
                    self.nrows >= 1,
                    self.ncols >= 1,
            ;
            assert((self.nrows as int) * (self.ncols as int) == len as int);
        }
        let mut submat = Matrix::new(self.nrows - 1, self.ncols - 1);
        let mut i: usize = 0;
        let mut rowid: usize = 0;
        while i < self.nrows
            invariant
                self.wf(),
                row < self.nrows,
                col < self.ncols,
                i <= self.nrows,
                rowid == (if i <= row {
                    i as int
                } else {
                    i - 1
                }),
                submat.wf(),
                submat.nrows == self.nrows - 1,
                submat.ncols == self.ncols - 1,
                forall|a: int, b: int|
                    0 <= a < rowid && 0 <= b < self.ncols - 1 ==> #[trigger] submat@[a][b]
                        == self@[skip_index(a, row as int)][skip_index(b, col as int)],
            decreases self.nrows - i,
        {
            if i != row {
                let mut j: usize = 0;
                let mut colid: usize = 0;
                while j < self.ncols
                    invariant
                        self.wf(),
                        row < self.nrows,
                        col < self.ncols,
                        i < self.nrows,
                        i != row,
                        rowid == (if i <= row {
                            i as int
                        } else {
                            i - 1
                        }),
                        rowid < self.nrows - 1 || row == self.nrows - 1 && rowid == i,
                        rowid <= self.nrows - 1,
                        rowid < self.nrows,
                        j <= self.ncols,
                        colid == (if j <= col {
                            j as int
                        } else {
                            j - 1
                        }),
                        submat.wf(),
                        submat.nrows == self.nrows - 1,
                        submat.ncols == self.ncols - 1,
                        forall|a: int, b: int|
                            0 <= a < rowid && 0 <= b < self.ncols - 1 ==> #[trigger] submat@[a][
                                b
                            ] == self@[skip_index(a, row as int)][skip_index(b, col as int)],
                        forall|b: int|
                            0 <= b < colid ==> #[trigger] submat@[rowid as int][b] == self@[
                                i as int
                            ][skip_index(b, col as int)],
                    decreases self.ncols - j,
                {
                    if j != col {
                        let _ = submat.set(rowid, colid, self.entry(i, j));
                        colid = colid + 1;
                    }
                    j = j + 1;
                }
                proof {
                    assert(rowid < self.nrows - 1);
                    assert(skip_index(rowid as int, row as int) == i as int);
                }
                rowid = rowid + 1;
            }
            i = i + 1;
        }
        proof {
            assert(self@[0].len() == self.ncols as int);
            assert forall|a: int| 0 <= a < submat.nrows implies submat@[a] =~= mat_submatrix(
                self@,
                row as int,
                col as int,
            )[a] by {}
            assert(submat@ =~~= mat_submatrix(self@, row as int, col as int));
        }
        submat
    }

    /// The determinant, by the 2-by-2 base case or Laplace expansion along
    /// row zero.
    pub fn det(&self) -> (r: Scalar)
        requires
            self.wf(),
            self.nrows == self.ncols,
            self.nrows >= 2,
        ensures
            r@ == mat_det(self@),
        decreases self.nrows, 3int,
    {
        if self.nrows == 2 {
            proof {
                lemma_index_bound(1, 1, 2, 2);
            }
            let a = self.vals[0];
            let b = self.vals[1];
            let c = self.vals[2];
            let d = self.vals[3];
            a.mul(d).sub(b.mul(c))
        } else {
            let mut acc = Scalar::zero();
            let mut j: usize = 0;
            while j < self.ncols
                invariant
                    self.wf(),
                    self.nrows == self.ncols,
                    self.nrows >= 3,
                    j <= self.ncols,
                    acc@ == det_expand(self@, j as int),
                decreases self.ncols - j,
            {
                acc = acc.add(self.entry(0, j).mul(self.cofactor(0, j)));
                j = j + 1;
            }
            proof {
                assert(self@[0].len() == self.ncols as int);
            }
            acc
        }
    }

    /// The determinant of the submatrix at `(row, col)`.
    pub fn minor(&self, row: usize, col: usize) -> (r: Scalar)
        requires
            self.wf(),
            self.nrows == self.ncols,
            self.nrows >= 3,
            row < self.nrows,
            col < self.ncols,
        ensures
            r@ == mat_minor(self@, row as int, col as int),
        decreases self.nrows, 1int,
    {
        let subm = self.submatrix(row, col);
        subm.det()
    }

    /// The signed minor at `(row, col)`.
    pub fn cofactor(&self, row: usize, col: usize) -> (r: Scalar)
        requires
            self.wf(),
            self.nrows == self.ncols,
            self.nrows >= 3,
            row < self.nrows,
            col < self.ncols,
        ensures
            r@ == mat_cofactor(self@, row as int, col as int),
        decreases self.nrows, 2int,
    {
        let minor_val = self.minor(row, col);
        proof {
            vstd::arithmetic::div_mod::lemma_add_mod_noop(row as int, col as int, 2);
        }
        if (row % 2 + col % 2) % 2 != 0 {
            minor_val.neg()
        } else {
            minor_val
        }
    }

    /// True exactly when the determinant is not zero.
    pub fn is_invertible(&self) -> (r: bool)
        requires
            self.wf(),
            self.nrows == self.ncols,
            self.nrows >= 2,
        ensures
            r == (mat_det(self@) != 0),
    {
        self.det().millionths() != 0
    }

    /// The inverse, built from the transposed cofactors divided by the
    /// determinant; `None` exactly when the determinant is zero.
    pub fn inverse(&self) -> (r: Option<Matrix>)
        requires
            self.wf(),
            self.nrows == self.ncols,
            self.nrows >= 3,
        ensures
            (mat_det(self@) != 0) <==> r is Some,
            r is Some ==> {
                &&& r->0.wf()
                &&& r->0.nrows == self.nrows
                &&& r->0.ncols == self.ncols
                &&& r->0@ == mat_inverse(self@)
            },
    {
        let det = self.det();
        if det.millionths() == 0 {
            return None;
        }
        let len = self.vals.len();
        proof {
            assert((self.nrows as int) * (self.ncols as int) == len as int);
        }
        let mut inverse_mat = Matrix::new(self.nrows, self.ncols);
        let ghost goal = mat_inverse(self@);
        let mut i: usize = 0;
        while i < self.nrows
            invariant
                self.wf(),
                self.nrows == self.ncols,
                self.nrows >= 3,
                det@ == mat_det(self@),
                det@ != 0,
                i <= self.nrows,
                inverse_mat.wf(),
                inverse_mat.nrows == self.nrows,
                inverse_mat.ncols == self.ncols,
                goal == mat_inverse(self@),
                forall|a: int, b: int|
                    0 <= a < self.nrows && 0 <= b < self.ncols && (b < i || b == i && a < 0)
                        ==> #[trigger] inverse_mat@[a][b] == goal[a][b],
            decreases self.nrows - i,
        {
            let mut j: usize = 0;
            while j < self.ncols
                invariant
                    self.wf(),
                    self.nrows == self.ncols,
                    self.nrows >= 3,
                    det@ == mat_det(self@),
                    det@ != 0,
                    i < self.nrows,
                    j <= self.ncols,
                    inverse_mat.wf(),
                    inverse_mat.nrows == self.nrows,
                    inverse_mat.ncols == self.ncols,
                    goal == mat_inverse(self@),
                    forall|a: int, b: int|
                        0 <= a < self.nrows && 0 <= b < self.ncols && (b < i || b == i && a < j)
                            ==> #[trigger] inverse_mat@[a][b] == goal[a][b],
                decreases self.ncols - j,
            {
                let c = self.cofactor(i, j);
                let _ = inverse_mat.set(j, i, c.div(det));
                j = j + 1;
            }
            i = i + 1;
        }
        proof {
            assert forall|a: int| 0 <= a < self.nrows implies inverse_mat@[a] =~= goal[a] by {}
            assert(inverse_mat@ =~~= goal);
        }
        Some(inverse_mat)
    }
}

/// A 4-by-4 matrix from its sixteen entries, row-major.
pub open spec fn mat4_model(
    m00: int, m01: int, m02: int, m03: int,
    m10: int, m11: int, m12: int, m13: int,
    m20: int, m21: int, m22: int, m23: int,
    m30: int, m31: int, m32: int, m33: int,
) -> Seq<Seq<int>> {
    seq![
        seq![m00, m01, m02, m03],
        seq![m10, m11, m12, m13],
        seq![m20, m21, m22, m23],
        seq![m30, m31, m32, m33],
    ]
}

/// The affine translation by `(x, y, z)`: identity with the offsets in the
/// last column.
pub open spec fn mat_translation(x: int, y: int, z: int) -> Seq<Seq<int>> {
    mat4_model(
        SCALE as int, 0, 0, x,
        0, SCALE as int, 0, y,
        0, 0, SCALE as int, z,
        0, 0, 0, SCALE as int,
    )
}

/// The affine scaling by `(x, y, z)`: the factors on the diagonal.
pub open spec fn mat_scaling(x: int, y: int, z: int) -> Seq<Seq<int>> {
    mat4_model(
        x, 0, 0, 0,
        0, y, 0, 0,
        0, 0, z, 0,
        0, 0, 0, SCALE as int,
    )
}

/// The right-handed rotation about the x axis by `a` radians.
pub open spec fn mat_rotation_x(a: int) -> Seq<Seq<int>> {
    mat4_model(
        SCALE as int, 0, 0, 0,
        0, s_cos(a), s_neg(s_sin(a)), 0,
        0, s_sin(a), s_cos(a), 0,
        0, 0, 0, SCALE as int,
    )
}

/// The right-handed rotation about the y axis by `a` radians.
pub open spec fn mat_rotation_y(a: int) -> Seq<Seq<int>> {
    mat4_model(
        s_cos(a), 0, s_sin(a), 0,
        0, SCALE as int, 0, 0,
        s_neg(s_sin(a)), 0, s_cos(a), 0,
        0, 0, 0, SCALE as int,
    )
}

/// The right-handed rotation about the z axis by `a` radians.
pub open spec fn mat_rotation_z(a: int) -> Seq<Seq<int>> {
    mat4_model(
        s_cos(a), s_neg(s_sin(a)), 0, 0,
        s_sin(a), s_cos(a), 0, 0,
        0, 0, SCALE as int, 0,
        0, 0, 0, SCALE as int,
    )
}

/// The shear with each coordinate moved in proportion to the other two.
pub open spec fn mat_shearing(
    x_y: int, x_z: int, y_x: int, y_z: int, z_x: int, z_y: int,
) -> Seq<Seq<int>> {
    mat4_model(
        SCALE as int, x_y, x_z, 0,
        y_x, SCALE as int, y_z, 0,
        z_x, z_y, SCALE as int, 0,
        0, 0, 0, SCALE as int,
    )
}

impl Matrix {
    /// A 4-by-4 matrix from its sixteen entries, row-major.
    fn mat4(
        m00: Scalar, m01: Scalar, m02: Scalar, m03: Scalar,
        m10: Scalar, m11: Scalar, m12: Scalar, m13: Scalar,
        m20: Scalar, m21: Scalar, m22: Scalar, m23: Scalar,
        m30: Scalar, m31: Scalar, m32: Scalar, m33: Scalar,
    ) -> (r: Matrix)
        ensures
            r.wf(),
            r.nrows == 4,
            r.ncols == 4,
            r@ == mat4_model(
                m00@, m01@, m02@, m03@,
                m10@, m11@, m12@, m13@,
                m20@, m21@, m22@, m23@,
                m30@, m31@, m32@, m33@,
            ),
    {
        let mut vals: Vec<Scalar> = Vec::new();
        vals.push(m00);
        vals.push(m01);
        vals.push(m02);
        vals.push(m03);
        vals.push(m10);
        vals.push(m11);
        vals.push(m12);
        vals.push(m13);
        vals.push(m20);
        vals.push(m21);
        vals.push(m22);
        vals.push(m23);
        vals.push(m30);
        vals.push(m31);
        vals.push(m32);
        vals.push(m33);
        let r = Matrix { nrows: 4, ncols: 4, vals };
        proof {
            let goal = mat4_model(
                m00@, m01@, m02@, m03@,
                m10@, m11@, m12@, m13@,
                m20@, m21@, m22@, m23@,
                m30@, m31@, m32@, m33@,
            );
            assert forall|i: int| 0 <= i < 4 implies r@[i] =~= goal[i] by {
                assert forall|j: int| 0 <= j < 4 implies r@[i][j] == goal[i][j] by {
                    assert(r@[i][j] == r.vals@[i * 4 + j]@);
                }
            }
            assert(r@ =~~= goal);
        }
        r
    }

    /// The affine translation by `(x, y, z)`.
    pub fn translation(x: Scalar, y: Scalar, z: Scalar) -> (r: Matrix)
        ensures
            r.wf(),
            r.nrows == 4,
            r.ncols == 4,
            r@ == mat_translation(x@, y@, z@),
    {
        let o = Scalar::one();
        let n = Scalar::zero();
        Matrix::mat4(o, n, n, x, n, o, n, y, n, n, o, z, n, n, n, o)
    }

    /// The affine scaling by `(x, y, z)`.
    pub fn scaling(x: Scalar, y: Scalar, z: Scalar) -> (r: Matrix)
        ensures
            r.wf(),
            r.nrows == 4,
            r.ncols == 4,
            r@ == mat_scaling(x@, y@, z@),
    {
        let o = Scalar::one();
        let n = Scalar::zero();
        Matrix::mat4(x, n, n, n, n, y, n, n, n, n, z, n, n, n, n, o)
    }

    /// The right-handed rotation about the x axis, in radians.
    pub fn rotation_x(angle: Scalar) -> (r: Matrix)
        ensures
            r.wf(),
            r.nrows == 4,
            r.ncols == 4,
            r@ == mat_rotation_x(angle@),
    {
        let o = Scalar::one();
        let n = Scalar::zero();
        let c = angle.cos();
        let s = angle.sin();
        Matrix::mat4(o, n, n, n, n, c, s.neg(), n, n, s, c, n, n, n, n, o)
    }

    /// The right-handed rotation about the y axis, in radians.
    pub fn rotation_y(angle: Scalar) -> (r: Matrix)
        ensures
            r.wf(),
            r.nrows == 4,
            r.ncols == 4,
            r@ == mat_rotation_y(angle@),
    {
        let o = Scalar::one();
        let n = Scalar::zero();
        let c = angle.cos();
        let s = angle.sin();
        Matrix::mat4(c, n, s, n, n, o, n, n, s.neg(), n, c, n, n, n, n, o)
    }

    /// The right-handed rotation about the z axis, in radians.
    pub fn rotation_z(angle: Scalar) -> (r: Matrix)
        ensures
            r.wf(),
            r.nrows == 4,
            r.ncols == 4,
            r@ == mat_rotation_z(angle@),
    {
        let o = Scalar::one();
        let n = Scalar::zero();
        let c = angle.cos();
        let s = angle.sin();
        Matrix::mat4(c, s.neg(), n, n, s, c, n, n, n, n, o, n, n, n, n, o)
    }

    /// The shear with each coordinate moved in proportion to the other two.
    pub fn shearing(
        x_y: Scalar, x_z: Scalar, y_x: Scalar, y_z: Scalar, z_x: Scalar, z_y: Scalar,
    ) -> (r: Matrix)
        ensures
            r.wf(),
            r.nrows == 4,
            r.ncols == 4,
            r@ == mat_shearing(x_y@, x_z@, y_x@, y_z@, z_x@, z_y@),
    {
        let o = Scalar::one();
        let n = Scalar::zero();
        Matrix::mat4(o, x_y, x_z, n, y_x, o, y_z, n, z_x, z_y, o, n, n, n, n, o)
    }
}

/// One row of a matrix applied to a tuple: the four products summed left to
/// right.
pub open spec fn row_dot_tuple(row: Seq<int>, t: TupleModel) -> int {
    s_add(
        s_add(s_add(s_mul(row[0], t.x), s_mul(row[1], t.y)), s_mul(row[2], t.z)),
        s_mul(row[3], t.w),
    )
}

/// A 4-by-4 matrix applied to a tuple taken as a 4-by-1 column.
pub open spec fn mat_tuple_mul(m: Seq<Seq<int>>, t: TupleModel) -> TupleModel {
    TupleModel {
        x: row_dot_tuple(m[0], t),
        y: row_dot_tuple(m[1], t),
        z: row_dot_tuple(m[2], t),
        w: row_dot_tuple(m[3], t),
    }
}

/// Transposing twice gives the matrix back, for every shape (and so in
/// particular for every square matrix).
pub proof fn lemma_transpose_transpose(m: Seq<Seq<int>>, rows: int, cols: int)
    requires
        mat_wf(m, rows, cols),
    ensures
        mat_transpose(mat_transpose(m, cols), rows) == m,
{
    let t = mat_transpose(m, cols);
    let tt = mat_transpose(t, rows);
    assert forall|i: int| 0 <= i < rows implies tt[i] =~= m[i] by {
        assert forall|j: int| 0 <= j < cols implies tt[i][j] == m[i][j] by {
            assert(t[j][i] == m[i][j]);
        }
    }
    assert(tt =~~= m);
}

/// A product-row prefix against an identity row: zero until the diagonal
/// entry has been passed, the plain entry afterwards.
proof fn lemma_dot_prefix_identity_left(m: Seq<Seq<int>>, n: int, cols: int, i: int, j: int, k: int)
    requires
        mat_wf(m, n, cols),
        mat_in_range(m),
        0 <= i < n,
        0 <= j < cols,
        0 <= k <= n,
    ensures
        dot_prefix(mat_identity(n)[i], m, j, k) == if k > i {
            m[i][j]
        } else {
            0
        },
    decreases k,
{
    let a = mat_identity(n)[i];
    if k > 0 {
        lemma_dot_prefix_identity_left(m, n, cols, i, j, k - 1);
        if k - 1 == i {
            crate::scalar::lemma_s_mul_one(m[i][j]);
            assert(a[k - 1] == SCALE as int);
        } else {
            crate::scalar::lemma_s_mul_zero(m[k - 1][j]);
            assert(a[k - 1] == 0);
        }
    }
}

/// A product-row prefix against an identity column: zero until the diagonal
/// entry has been passed, the plain entry afterwards.
proof fn lemma_dot_prefix_identity_right(
    m: Seq<Seq<int>>, rows: int, cols: int, i: int, j: int, k: int,
)
    requires
        mat_wf(m, rows, cols),
        mat_in_range(m),
        0 <= i < rows,
        0 <= j < cols,
        0 <= k <= cols,
    ensures
        dot_prefix(m[i], mat_identity(cols), j, k) == if k > j {
            m[i][j]
        } else {
            0
        },
    decreases k,
{
    let b = mat_identity(cols);
    if k > 0 {
        lemma_dot_prefix_identity_right(m, rows, cols, i, j, k - 1);
        if k - 1 == j {
            crate::scalar::lemma_s_mul_one(m[i][j]);
            assert(b[k - 1][j] == SCALE as int);
        } else {
            crate::scalar::lemma_s_mul_zero(m[i][k - 1]);
            assert(b[k - 1][j] == 0);
        }
    }
}

/// Multiplying by the identity on the left gives the matrix back.
pub proof fn lemma_identity_mul_left(m: Seq<Seq<int>>, rows: int, cols: int)
    requires
        mat_wf(m, rows, cols),
        mat_in_range(m),
    ensures
        mat_mul(mat_identity(rows), m, cols) == m,
{
    let p = mat_mul(mat_identity(rows), m, cols);
    assert forall|i: int| 0 <= i < rows implies p[i] =~= m[i] by {
        assert forall|j: int| 0 <= j < cols implies p[i][j] == m[i][j] by {
            lemma_dot_prefix_identity_left(m, rows, cols, i, j, rows);
        }
    }
    assert(p =~~= m);
}

/// Multiplying by the identity on the right gives the matrix back.
pub proof fn lemma_identity_mul_right(m: Seq<Seq<int>>, rows: int, cols: int)
    requires
        mat_wf(m, rows, cols),
        mat_in_range(m),
    ensures
        mat_mul(m, mat_identity(cols), cols) == m,
{
    let p = mat_mul(m, mat_identity(cols), cols);
    assert forall|i: int| 0 <= i < rows implies p[i] =~= m[i] by {
        assert forall|j: int| 0 <= j < cols implies p[i][j] == m[i][j] by {
            lemma_dot_prefix_identity_right(m, rows, cols, i, j, cols);
        }
    }
    assert(p =~~= m);
}

/// A translation cannot move a free vector: on a tuple with `w == 0` the
/// translation column is multiplied by zero, so only the identity block
/// acts. This is what lets a ray's direction go through the same transform
/// as its origin.
pub proof fn lemma_translation_fixes_vectors(x: int, y: int, z: int, v: TupleModel)
    requires
        v.w == 0,
        in_range(v.x),
        in_range(v.y),
        in_range(v.z),
    ensures
        mat_tuple_mul(mat_translation(x, y, z), v) == v,
{
    crate::scalar::lemma_s_mul_one(v.x);
    crate::scalar::lemma_s_mul_one(v.y);
    crate::scalar::lemma_s_mul_one(v.z);
    crate::scalar::lemma_s_mul_zero(x);
    crate::scalar::lemma_s_mul_zero(y);
    crate::scalar::lemma_s_mul_zero(z);
    crate::scalar::lemma_s_mul_zero(v.x);
    crate::scalar::lemma_s_mul_zero(v.y);
    crate::scalar::lemma_s_mul_zero(v.z);
    crate::scalar::lemma_s_mul_one(0);
}

/// The identity laws for a concrete matrix value: `identity * A == A` and
/// `A * identity == A`, with the identity sized to fit on each side.
pub proof fn lemma_matrix_identity_product(m: Matrix)
    requires
        m.wf(),
    ensures
        mat_mul(mat_identity(m.nrows as int), m@, m.ncols as int) == m@,
        mat_mul(m@, mat_identity(m.ncols as int), m.ncols as int) == m@,
{
    m.lemma_view_shape();
    lemma_identity_mul_left(m@, m.nrows as int, m.ncols as int);
    lemma_identity_mul_right(m@, m.nrows as int, m.ncols as int);
}

} // verus!
