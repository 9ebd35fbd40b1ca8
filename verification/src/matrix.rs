//! Dense matrices stored column by column, and borrowed runs of their columns.

use vstd::prelude::*;

use crate::scalar::{is_zero, zero_value};

verus! {

/// Column `j` of a column-major buffer of columns of `nrows` entries.
pub open spec fn column_of<T>(data: Seq<T>, nrows: nat, j: int) -> Seq<T> {
    data.subrange(j * nrows, j * nrows + nrows)
}

/// The columns that a column-major buffer of `nrows * ncols` scalars holds.
pub open spec fn columns_of<T>(data: Seq<T>, nrows: nat, ncols: nat) -> Seq<Seq<T>> {
    Seq::new(ncols, |j: int| column_of(data, nrows, j))
}

/// The columns of the transposed matrix of a matrix given by its columns, each
/// of `rows` entries.
pub open spec fn transposed<T>(columns: Seq<Seq<T>>, rows: nat) -> Seq<Seq<T>> {
    Seq::new(rows, |i: int| Seq::new(columns.len(), |j: int| columns[j][i]))
}

/// The columns of the symmetric matrix that has the upper triangle of a
/// square matrix, given by its columns of `rows` entries each: every entry
/// below the diagonal is the entry that mirrors it above.
pub open spec fn mirrored<T>(columns: Seq<Seq<T>>, rows: nat) -> Seq<Seq<T>> {
    Seq::new(
        columns.len(),
        |j: int|
            Seq::new(
                rows,
                |i: int|
                    if j < i {
                        columns[i][j]
                    } else {
                        columns[j][i]
                    },
            ),
    )
}

/// The columns with `value` written to every entry of the main diagonal.
pub open spec fn with_diagonal<T>(columns: Seq<Seq<T>>, rows: nat, value: T) -> Seq<Seq<T>> {
    Seq::new(
        columns.len(),
        |j: int|
            if j < rows {
                columns[j].update(j, value)
            } else {
                columns[j]
            },
    )
}

/// Every entry of the columns, each of `rows` entries, is `value`.
pub open spec fn is_constant_of<T>(columns: Seq<Seq<T>>, rows: nat, value: T) -> bool {
    forall|j: int|
        0 <= j < columns.len() ==> #[trigger] columns[j] == Seq::new(rows, |i: int| value)
}

/// Every entry of the columns, each of `rows` entries, is one zero that the
/// scalar type gives.
pub open spec fn is_zero_filled<T: num_traits::Zero>(columns: Seq<Seq<T>>, rows: nat) -> bool {
    exists|zero: T| is_zero(zero) && #[trigger] is_constant_of(columns, rows, zero)
}

/// Column `j` of a column-major buffer lies inside the buffer.
pub proof fn lemma_column_in_bounds(nrows: int, ncols: int, j: int)
    requires
        0 <= nrows,
        0 <= j < ncols,
    ensures
        0 <= j * nrows,
        j * nrows + nrows <= nrows * ncols,
{
    assert(0 <= j * nrows) by (nonlinear_arith)
        requires
            0 <= j,
            0 <= nrows,
    ;
    assert(j * nrows + nrows <= nrows * ncols) by (nonlinear_arith)
        requires
            0 <= j < ncols,
            0 <= nrows,
    ;
}

/// Two different columns of a column-major buffer do not overlap.
pub proof fn lemma_columns_apart(nrows: int, c: int, j: int)
    requires
        0 <= nrows,
        0 <= c,
        0 <= j,
        c != j,
    ensures
        c * nrows + nrows <= j * nrows || j * nrows + nrows <= c * nrows,
{
    if c < j {
        assert(c * nrows + nrows <= j * nrows) by (nonlinear_arith)
            requires
                0 <= nrows,
                0 <= c < j,
        ;
    } else {
        assert(j * nrows + nrows <= c * nrows) by (nonlinear_arith)
            requires
                0 <= nrows,
                0 <= j < c,
        ;
    }
}

/// A run of `count` columns from column `start` lies inside a column-major buffer.
pub proof fn lemma_run_in_bounds(nrows: int, ncols: int, start: int, count: int)
    requires
        0 <= nrows,
        0 <= start,
        0 <= count,
        start + count <= ncols,
    ensures
        0 <= start * nrows,
        0 <= count * nrows,
        start * nrows + count * nrows <= nrows * ncols,
{
    assert(0 <= start * nrows && 0 <= count * nrows && start * nrows + count * nrows <= nrows
        * ncols) by (nonlinear_arith)
        requires
            0 <= nrows,
            0 <= start,
            0 <= count,
            start + count <= ncols,
    ;
}

/// Appending one more column to a column-major buffer of `k` columns keeps
/// the columns that were there and makes the new one column `k`.
pub proof fn lemma_column_appended<T>(before: Seq<T>, column: Seq<T>, nrows: nat, k: int)
    requires
        0 <= k,
        before.len() == k * nrows,
        column.len() == nrows,
    ensures
        (before + column).len() == (k + 1) * nrows,
        column_of(before + column, nrows, k) == column,
        forall|c: int|
            0 <= c < k ==> #[trigger] column_of(before + column, nrows, c) == column_of(
                before,
                nrows,
                c,
            ),
{
    assert(k * nrows + nrows == (k + 1) * nrows) by (nonlinear_arith);
    assert(column_of(before + column, nrows, k) =~= column);
    assert forall|c: int| 0 <= c < k implies #[trigger] column_of(before + column, nrows, c)
        == column_of(before, nrows, c) by {
        lemma_column_in_bounds(nrows as int, k, c);
        assert(nrows * k == k * nrows) by (nonlinear_arith);
        assert(column_of(before + column, nrows, c) =~= column_of(before, nrows, c));
    }
}

/// A copy of `values`.
pub fn copy_of<T: Copy>(values: &Vec<T>) -> (copy: Vec<T>)
    ensures
        copy@ == values@,
{
    let mut copy: Vec<T> = Vec::with_capacity(values.len());
    let mut i: usize = 0;
    while i < values.len()
        invariant
            i <= values@.len(),
            copy@ == values@.subrange(0, i as int),
        decreases values@.len() - i,
    {
        copy.push(values[i]);
        proof {
            assert(copy@ =~= values@.subrange(0, i + 1));
        }
        i = i + 1;
    }
    proof {
        assert(values@.subrange(0, values@.len() as int) =~= values@);
    }
    copy
}

/// A dense matrix of `rows()` rows; its view is the sequence of its columns.
#[derive(Debug)]
pub struct Matrix<T> {
    pub(crate) nrows: usize,
    pub(crate) ncols: usize,
    pub(crate) data: Vec<T>,
}

impl<T> View for Matrix<T> {
    type V = Seq<Seq<T>>;

    closed spec fn view(&self) -> Seq<Seq<T>> {
        columns_of(self.data@, self.nrows as nat, self.ncols as nat)
    }
}

impl<T> Matrix<T> {
    #[verifier::type_invariant]
    pub closed spec fn well_formed(&self) -> bool {
        &&& self.data@.len() == self.nrows * self.ncols
        &&& self.nrows * self.ncols <= usize::MAX
    }

    /// The number of rows.
    pub closed spec fn rows(&self) -> nat {
        self.nrows as nat
    }

    /// The entries, column after column.
    pub closed spec fn elements(&self) -> Seq<T> {
        self.data@
    }

    /// Every column has `rows()` entries.
    pub proof fn lemma_shape(&self)
        requires
            self.well_formed(),
        ensures
            self@ == columns_of(self.elements(), self.rows(), self@.len()),
            self.elements().len() == self.rows() * self@.len(),
            forall|j: int| 0 <= j < self@.len() ==> (#[trigger] self@[j]).len() == self.rows(),
    {
        assert forall|j: int| 0 <= j < self@.len() implies (#[trigger] self@[j]).len()
            == self.rows() by {
            lemma_column_in_bounds(self.nrows as int, self.ncols as int, j);
        }
    }

    /// Takes a column-major buffer as a matrix of `nrows` rows and `ncols` columns.
    pub fn from_vec(nrows: usize, ncols: usize, data: Vec<T>) -> (m: Self)
        requires
            data@.len() == nrows * ncols,
        ensures
            m.rows() == nrows,
            m@.len() == ncols,
            m.elements() == data@,
            m@ == columns_of(data@, nrows as nat, ncols as nat),
    {
        assert(data.len() == nrows * ncols);
        Matrix { nrows, ncols, data }
    }

    /// Gives the column-major buffer back.
    pub fn into_vec(self) -> (data: Vec<T>)
        ensures
            data@ == self.elements(),
            data@.len() == self.rows() * self@.len(),
    {
        proof {
            use_type_invariant(&self);
        }
        self.data
    }

    pub fn nrows(&self) -> (n: usize)
        ensures
            n == self.rows(),
    {
        self.nrows
    }

    pub fn ncols(&self) -> (n: usize)
        ensures
            n == self@.len(),
    {
        self.ncols
    }

    /// A borrowed run of `count` columns that starts at column `start`.
    pub fn columns(&self, start: usize, count: usize) -> (s: MatrixSlice<'_, T>)
        requires
            start + count <= self@.len(),
        ensures
            s@ == self@.subrange(start as int, start + count),
            s.rows() == self.rows(),
    {
        proof {
            use_type_invariant(self);
        }
        MatrixSlice { matrix: self, start, count }
    }

    /// The whole matrix as a borrowed run of columns.
    pub fn as_slice(&self) -> (s: MatrixSlice<'_, T>)
        ensures
            s@ == self@,
            s.rows() == self.rows(),
    {
        proof {
            use_type_invariant(self);
            assert(self@.subrange(0, self@.len() as int) =~= self@);
        }
        MatrixSlice { matrix: self, start: 0, count: self.ncols }
    }
}

impl<T: Copy> Matrix<T> {
    /// A matrix whose every entry is `value`.
    pub fn filled(nrows: usize, ncols: usize, value: T) -> (m: Self)
        requires
            nrows * ncols <= usize::MAX,
        ensures
            m.rows() == nrows,
            m@.len() == ncols,
            forall|j: int|
                0 <= j < ncols ==> #[trigger] m@[j] == Seq::new(nrows as nat, |i: int| value),
    {
        let total: usize = nrows * ncols;
        let mut data: Vec<T> = Vec::with_capacity(total);
        let mut k: usize = 0;
        while k < total
            invariant
                k <= total,
                data@.len() == k,
                forall|q: int| 0 <= q < k ==> data@[q] == value,
            decreases total - k,
        {
            data.push(value);
            k = k + 1;
        }
        let m = Matrix { nrows, ncols, data };
        proof {
            assert forall|j: int| 0 <= j < ncols implies #[trigger] m@[j] == Seq::new(
                nrows as nat,
                |i: int| value,
            ) by {
                lemma_column_in_bounds(nrows as int, ncols as int, j);
                assert(m@[j] =~= Seq::new(nrows as nat, |i: int| value));
            }
        }
        m
    }

    /// Entry `i` of column `j`.
    pub fn get(&self, i: usize, j: usize) -> (value: T)
        requires
            i < self.rows(),
            j < self@.len(),
        ensures
            value == self@[j as int][i as int],
    {
        proof {
            use_type_invariant(self);
            lemma_column_in_bounds(self.nrows as int, self.ncols as int, j as int);
        }
        self.data[j * self.nrows + i]
    }

    /// Writes `value` to entry `i` of column `j`.
    pub fn set(&mut self, i: usize, j: usize, value: T)
        requires
            i < old(self).rows(),
            j < old(self)@.len(),
        ensures
            final(self).rows() == old(self).rows(),
            final(self)@ == old(self)@.update(
                j as int,
                old(self)@[j as int].update(i as int, value),
            ),
    {
        proof {
            use_type_invariant(&*self);
            lemma_column_in_bounds(self.nrows as int, self.ncols as int, j as int);
        }
        let ghost before = *self;
        let k: usize = j * self.nrows + i;
        self.data[k] = value;
        proof {
            let after = *self;
            let expected = before@.update(j as int, before@[j as int].update(i as int, value));
            assert(after@.len() == expected.len());
            assert forall|c: int| 0 <= c < after@.len() implies #[trigger] after@[c]
                == expected[c] by {
                lemma_column_in_bounds(after.nrows as int, after.ncols as int, c);
                lemma_column_in_bounds(after.nrows as int, after.ncols as int, j as int);
                if c == j {
                    assert(after@[c] =~= before@[j as int].update(i as int, value));
                } else {
                    lemma_columns_apart(after.nrows as int, c, j as int);
                    assert(after@[c] =~= before@[c]);
                }
            }
            assert(after@ =~= expected);
        }
    }

    /// A copy of column `j`.
    pub fn column(&self, j: usize) -> (c: Vec<T>)
        requires
            j < self@.len(),
        ensures
            c@ == self@[j as int],
            c@.len() == self.rows(),
    {
        self.as_slice().column(j)
    }

    /// A copy of every column.
    pub fn clone_columns(&self) -> (columns: Vec<Vec<T>>)
        ensures
            columns@.len() == self@.len(),
            forall|j: int| 0 <= j < self@.len() ==> (#[trigger] columns@[j])@ == self@[j],
    {
        let mut columns: Vec<Vec<T>> = Vec::with_capacity(self.ncols);
        let mut j: usize = 0;
        while j < self.ncols
            invariant
                j <= self.ncols,
                self.ncols == self@.len(),
                columns@.len() == j,
                forall|c: int| 0 <= c < j ==> (#[trigger] columns@[c])@ == self@[c],
            decreases self.ncols - j,
        {
            columns.push(self.column(j));
            j = j + 1;
        }
        columns
    }

    /// Overwrites column `j` with `values`.
    pub fn set_column(&mut self, j: usize, values: &Vec<T>)
        requires
            j < old(self)@.len(),
            values@.len() == old(self).rows(),
        ensures
            final(self).rows() == old(self).rows(),
            final(self)@ == old(self)@.update(j as int, values@),
    {
        let ghost before = *self;
        proof {
            use_type_invariant(&*self);
            self.lemma_shape();
        }
        let n: usize = self.nrows;
        let mut i: usize = 0;
        while i < n
            invariant
                i <= n,
                n == self.rows(),
                self.rows() == before.rows(),
                values@.len() == n,
                j < before@.len(),
                self@.len() == before@.len(),
                forall|c: int|
                    0 <= c < before@.len() && c != j ==> #[trigger] self@[c] == before@[c],
                self@[j as int].len() == n,
                forall|q: int| 0 <= q < i ==> self@[j as int][q] == values@[q],
            decreases n - i,
        {
            self.set(i, j, values[i]);
            i = i + 1;
        }
        proof {
            assert(self@[j as int] =~= values@);
            assert(self@ =~= before@.update(j as int, values@));
        }
    }

    /// A matrix of `ncols` columns, each a copy of `column`.
    pub fn repeated(column: &Vec<T>, ncols: usize) -> (m: Self)
        requires
            column@.len() * ncols <= usize::MAX,
        ensures
            m.rows() == column@.len(),
            m@ == Seq::new(ncols as nat, |j: int| column@),
    {
        let nrows: usize = column.len();
        let mut data: Vec<T> = Vec::with_capacity(nrows * ncols);
        let mut j: usize = 0;
        while j < ncols
            invariant
                j <= ncols,
                nrows == column@.len(),
                nrows * ncols <= usize::MAX,
                data@.len() == j * nrows,
                forall|c: int|
                    0 <= c < j ==> #[trigger] column_of(data@, nrows as nat, c) == column@,
            decreases ncols - j,
        {
            let ghost before = data@;
            let mut i: usize = 0;
            while i < nrows
                invariant
                    i <= nrows,
                    nrows == column@.len(),
                    data@.len() == j * nrows + i,
                    data@ == before + column@.subrange(0, i as int),
                decreases nrows - i,
            {
                data.push(column[i]);
                proof {
                    assert(data@ =~= before + column@.subrange(0, i + 1));
                }
                i = i + 1;
            }
            proof {
                assert(column@.subrange(0, nrows as int) =~= column@);
                assert(j * nrows + nrows == (j + 1) * nrows) by (nonlinear_arith);
                assert forall|c: int| 0 <= c < j + 1 implies #[trigger] column_of(
                    data@,
                    nrows as nat,
                    c,
                ) == column@ by {
                    lemma_column_in_bounds(nrows as int, j + 1, c);
                    assert((j + 1) * nrows == nrows * (j + 1)) by (nonlinear_arith);
                    if c < j {
                        lemma_column_in_bounds(nrows as int, j as int, c);
                        assert(j * nrows == nrows * j) by (nonlinear_arith);
                        assert(column_of(data@, nrows as nat, c) =~= column_of(
                            before,
                            nrows as nat,
                            c,
                        ));
                    } else {
                        assert(column_of(data@, nrows as nat, c) =~= column@);
                    }
                }
            }
            j = j + 1;
        }
        proof {
            assert(ncols * nrows == nrows * ncols) by (nonlinear_arith);
        }
        let m = Matrix { nrows, ncols, data };
        proof {
            assert(m@ =~= Seq::new(ncols as nat, |j: int| column@));
        }
        m
    }

    /// The transposed matrix: its entry `(j, i)` is entry `(i, j)` of this
    /// one.
    pub fn transpose(&self) -> (t: Self)
        ensures
            t.rows() == self@.len(),
            t@.len() == self.rows(),
            t@ == transposed(self@, self.rows()),
    {
        proof {
            use_type_invariant(self);
            self.lemma_shape();
        }
        let nrows: usize = self.nrows;
        let ncols: usize = self.ncols;
        let mut data: Vec<T> = Vec::with_capacity(nrows * ncols);
        let mut i: usize = 0;
        while i < nrows
            invariant
                i <= nrows,
                nrows == self.rows(),
                ncols == self@.len(),
                nrows * ncols <= usize::MAX,
                forall|j: int| 0 <= j < self@.len() ==> (#[trigger] self@[j]).len() == self.rows(),
                data@.len() == i * ncols,
                forall|r: int|
                    0 <= r < i ==> #[trigger] column_of(data@, ncols as nat, r) == Seq::new(
                        ncols as nat,
                        |j: int| self@[j][r],
                    ),
            decreases nrows - i,
        {
            let ghost before = data@;
            let mut j: usize = 0;
            while j < ncols
                invariant
                    j <= ncols,
                    i < nrows,
                    nrows == self.rows(),
                    ncols == self@.len(),
                    forall|c: int|
                        0 <= c < self@.len() ==> (#[trigger] self@[c]).len() == self.rows(),
                    data@.len() == i * ncols + j,
                    data@ == before + Seq::new(j as nat, |c: int| self@[c][i as int]),
                decreases ncols - j,
            {
                data.push(self.get(i, j));
                proof {
                    assert(data@ =~= before + Seq::new(
                        (j + 1) as nat,
                        |c: int| self@[c][i as int],
                    ));
                }
                j = j + 1;
            }
            proof {
                assert(i * ncols + ncols == (i + 1) * ncols) by (nonlinear_arith);
                assert forall|r: int| 0 <= r < i + 1 implies #[trigger] column_of(
                    data@,
                    ncols as nat,
                    r,
                ) == Seq::new(ncols as nat, |j: int| self@[j][r]) by {
                    lemma_column_in_bounds(ncols as int, i + 1, r);
                    assert((i + 1) * ncols == ncols * (i + 1)) by (nonlinear_arith);
                    if r < i {
                        lemma_column_in_bounds(ncols as int, i as int, r);
                        assert(i * ncols == ncols * i) by (nonlinear_arith);
                        assert(column_of(data@, ncols as nat, r) =~= column_of(
                            before,
                            ncols as nat,
                            r,
                        ));
                    } else {
                        assert(column_of(data@, ncols as nat, r) =~= Seq::new(
                            ncols as nat,
                            |j: int| self@[j][r],
                        ));
                    }
                }
            }
            i = i + 1;
        }
        proof {
            assert(nrows * ncols == ncols * nrows) by (nonlinear_arith);
        }
        let t = Matrix { nrows: ncols, ncols: nrows, data };
        proof {
            assert(t@ =~= transposed(self@, self.rows()));
        }
        t
    }

    /// The symmetric matrix that has the upper triangle of this square
    /// matrix.
    pub fn mirror_upper(&self) -> (m: Self)
        requires
            self.rows() == self@.len(),
        ensures
            m.rows() == self.rows(),
            m@ == mirrored(self@, self.rows()),
    {
        proof {
            use_type_invariant(self);
            self.lemma_shape();
        }
        let n: usize = self.nrows;
        let mut data: Vec<T> = Vec::with_capacity(n * n);
        let mut j: usize = 0;
        while j < n
            invariant
                j <= n,
                n == self.rows(),
                n == self@.len(),
                n * n <= usize::MAX,
                forall|c: int| 0 <= c < self@.len() ==> (#[trigger] self@[c]).len() == self.rows(),
                data@.len() == j * n,
                forall|c: int|
                    0 <= c < j ==> #[trigger] column_of(data@, n as nat, c) == mirrored(
                        self@,
                        n as nat,
                    )[c],
            decreases n - j,
        {
            let ghost before = data@;
            let mut i: usize = 0;
            while i < n
                invariant
                    i <= n,
                    j < n,
                    n == self.rows(),
                    n == self@.len(),
                    forall|c: int|
                        0 <= c < self@.len() ==> (#[trigger] self@[c]).len() == self.rows(),
                    data@.len() == j * n + i,
                    data@ == before + mirrored(self@, n as nat)[j as int].subrange(0, i as int),
                decreases n - i,
            {
                let entry: T = if j < i {
                    self.get(j, i)
                } else {
                    self.get(i, j)
                };
                data.push(entry);
                proof {
                    assert(data@ =~= before + mirrored(self@, n as nat)[j as int].subrange(
                        0,
                        i + 1,
                    ));
                }
                i = i + 1;
            }
            proof {
                let column = mirrored(self@, n as nat)[j as int];
                assert(column.subrange(0, n as int) =~= column);
                lemma_column_appended(before, column, n as nat, j as int);
            }
            j = j + 1;
        }
        let m = Matrix { nrows: n, ncols: n, data };
        proof {
            assert(m@ =~= mirrored(self@, self.rows()));
        }
        m
    }

    /// Writes `value` to every entry of the main diagonal.
    pub fn fill_diagonal(&mut self, value: T)
        ensures
            final(self).rows() == old(self).rows(),
            final(self)@ == with_diagonal(old(self)@, old(self).rows(), value),
    {
        proof {
            use_type_invariant(&*self);
            self.lemma_shape();
        }
        let ghost before = *self;
        let n: usize = if self.nrows < self.ncols {
            self.nrows
        } else {
            self.ncols
        };
        let mut k: usize = 0;
        while k < n
            invariant
                k <= n,
                n <= self.rows(),
                n <= self@.len(),
                n == if before.rows() < before@.len() {
                    before.rows()
                } else {
                    before@.len()
                },
                self.rows() == before.rows(),
                self@.len() == before@.len(),
                forall|j: int|
                    0 <= j < before@.len() ==> (#[trigger] before@[j]).len() == before.rows(),
                forall|j: int|
                    0 <= j < k ==> #[trigger] self@[j] == before@[j].update(j, value),
                forall|j: int| k <= j < self@.len() ==> #[trigger] self@[j] == before@[j],
            decreases n - k,
        {
            self.set(k, k, value);
            k = k + 1;
        }
        proof {
            assert(self@ =~= with_diagonal(before@, before.rows(), value));
        }
    }
}

impl<T: Copy> Clone for Matrix<T> {
    fn clone(&self) -> (copy: Self)
        ensures
            copy@ == self@,
            copy.rows() == self.rows(),
            copy.elements() == self.elements(),
    {
        proof {
            use_type_invariant(self);
        }
        Matrix { nrows: self.nrows, ncols: self.ncols, data: copy_of(&self.data) }
    }
}

impl<T: Copy + num_traits::Zero> Matrix<T> {
    /// A matrix whose every entry is the zero of the scalar type.
    pub fn zeros(nrows: usize, ncols: usize) -> (m: Self)
        requires
            nrows * ncols <= usize::MAX,
        ensures
            m.rows() == nrows,
            m@.len() == ncols,
            is_zero_filled(m@, nrows as nat),
    {
        let zero: T = zero_value();
        let m = Matrix::filled(nrows, ncols, zero);
        assert(is_constant_of(m@, nrows as nat, zero));
        m
    }
}

/// A borrowed run of consecutive columns of a matrix; its view is the sequence
/// of those columns.
#[derive(Debug)]
pub struct MatrixSlice<'a, T> {
    matrix: &'a Matrix<T>,
    start: usize,
    count: usize,
}

impl<'a, T> View for MatrixSlice<'a, T> {
    type V = Seq<Seq<T>>;

    closed spec fn view(&self) -> Seq<Seq<T>> {
        self.matrix@.subrange(self.start as int, self.start + self.count)
    }
}

impl<'a, T> MatrixSlice<'a, T> {
    #[verifier::type_invariant]
    pub closed spec fn well_formed(&self) -> bool {
        &&& self.matrix.well_formed()
        &&& self.start + self.count <= self.matrix@.len()
    }

    /// The number of rows.
    pub closed spec fn rows(&self) -> nat {
        self.matrix.rows()
    }

    /// Every column has `rows()` entries.
    pub proof fn lemma_shape(&self)
        requires
            self.well_formed(),
        ensures
            forall|j: int| 0 <= j < self@.len() ==> (#[trigger] self@[j]).len() == self.rows(),
    {
        self.matrix.lemma_shape();
    }

    pub fn nrows(&self) -> (n: usize)
        ensures
            n == self.rows(),
    {
        self.matrix.nrows
    }

    pub fn ncols(&self) -> (n: usize)
        ensures
            n == self@.len(),
    {
        proof {
            use_type_invariant(self);
        }
        self.count
    }

    /// The same run once more.
    pub fn share(&self) -> (s: MatrixSlice<'a, T>)
        ensures
            s@ == self@,
            s.rows() == self.rows(),
    {
        proof {
            use_type_invariant(self);
        }
        MatrixSlice { matrix: self.matrix, start: self.start, count: self.count }
    }

    /// A run of `count` columns inside this run, starting at its column `start`.
    pub fn columns(&self, start: usize, count: usize) -> (s: MatrixSlice<'a, T>)
        requires
            start + count <= self@.len(),
        ensures
            s@ == self@.subrange(start as int, start + count),
            s.rows() == self.rows(),
    {
        proof {
            use_type_invariant(self);
            assert(self.matrix@.subrange(self.start + start, self.start + start + count)
                =~= self@.subrange(start as int, start + count));
        }
        MatrixSlice { matrix: self.matrix, start: self.start + start, count }
    }
}

impl<'a, T: Copy> MatrixSlice<'a, T> {
    /// Entry `i` of column `j` of the run.
    pub fn get(&self, i: usize, j: usize) -> (value: T)
        requires
            i < self.rows(),
            j < self@.len(),
        ensures
            value == self@[j as int][i as int],
    {
        proof {
            use_type_invariant(self);
        }
        self.matrix.get(i, self.start + j)
    }

    /// A copy of column `j` of the run.
    pub fn column(&self, j: usize) -> (c: Vec<T>)
        requires
            j < self@.len(),
        ensures
            c@ == self@[j as int],
            c@.len() == self.rows(),
    {
        proof {
            use_type_invariant(self);
            self.lemma_shape();
        }
        let n: usize = self.nrows();
        let mut c: Vec<T> = Vec::with_capacity(n);
        let mut i: usize = 0;
        while i < n
            invariant
                i <= n,
                n == self.rows(),
                j < self@.len(),
                self@[j as int].len() == n,
                c@.len() == i,
                forall|q: int| 0 <= q < i ==> c@[q] == self@[j as int][q],
            decreases n - i,
        {
            c.push(self.get(i, j));
            i = i + 1;
        }
        assert(c@ =~= self@[j as int]);
        c
    }

    /// An owned copy of the run.
    pub fn to_matrix(&self) -> (m: Matrix<T>)
        ensures
            m@ == self@,
            m.rows() == self.rows(),
    {
        proof {
            use_type_invariant(self);
            use_type_invariant(self.matrix);
            self.lemma_shape();
        }
        let nrows: usize = self.matrix.nrows;
        let ncols: usize = self.count;
        proof {
            lemma_run_in_bounds(
                nrows as int,
                self.matrix.ncols as int,
                self.start as int,
                ncols as int,
            );
        }
        let first: usize = self.start * nrows;
        let total: usize = ncols * nrows;
        proof {
            assert(ncols * nrows == nrows * ncols) by (nonlinear_arith);
        }
        let mut data: Vec<T> = Vec::with_capacity(total);
        let mut k: usize = 0;
        while k < total
            invariant
                k <= total,
                first + total <= self.matrix.data@.len(),
                first + total <= usize::MAX,
                data@.len() == k,
                forall|q: int| 0 <= q < k ==> data@[q] == self.matrix.data@[first + q],
            decreases total - k,
        {
            data.push(self.matrix.data[first + k]);
            k = k + 1;
        }
        let m = Matrix { nrows, ncols, data };
        proof {
            assert(m@.len() == self@.len());
            assert forall|j: int| 0 <= j < m@.len() implies #[trigger] m@[j] == self@[j] by {
                lemma_column_in_bounds(nrows as int, ncols as int, j);
                lemma_column_in_bounds(nrows as int, self.matrix.ncols as int, self.start + j);
                assert((self.start + j) * nrows == first + j * nrows) by (nonlinear_arith)
                    requires
                        first == self.start * nrows,
                ;
                assert(m@[j] =~= self@[j]);
            }
            assert(m@ =~= self@);
        }
        m
    }
}

} // verus!
