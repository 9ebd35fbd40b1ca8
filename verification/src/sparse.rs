//! Sparse matrices in compressed sparse row form, as `nalgebra_sparse` keeps
//! them.

use vstd::prelude::*;

use crate::matrix::{copy_of, Matrix};
use crate::scalar::{is_product, times};

verus! {

/// Row `r` ends where it starts or later.
pub open spec fn row_in_order(offsets: Seq<usize>, r: int) -> bool {
    offsets[r] <= offsets[r + 1]
}

/// The column indices of row `r` go strictly up.
pub open spec fn row_ascends(offsets: Seq<usize>, indices: Seq<usize>, r: int) -> bool {
    forall|k: int, next: int|
        offsets[r] <= k && next == k + 1 && next < offsets[r + 1] ==> #[trigger] indices[k]
            < #[trigger] indices[next]
}

/// The row offsets and column indices are those of a matrix of `nrows` rows
/// and `ncols` columns in compressed sparse row form, with `stored` values:
/// row `r` holds the entries from `offsets[r]` up to `offsets[r + 1]`, and
/// within a row the column indices are below `ncols` and go strictly up.
pub open spec fn is_csr(
    nrows: nat,
    ncols: nat,
    offsets: Seq<usize>,
    indices: Seq<usize>,
    stored: nat,
) -> bool {
    &&& offsets.len() == nrows + 1
    &&& offsets[0] == 0
    &&& offsets[nrows as int] == indices.len()
    &&& stored == indices.len()
    &&& forall|r: int| 0 <= r < nrows ==> #[trigger] row_in_order(offsets, r)
    &&& forall|k: int| 0 <= k < indices.len() ==> #[trigger] indices[k] < ncols
    &&& forall|r: int| 0 <= r < nrows ==> #[trigger] row_ascends(offsets, indices, r)
}

/// The stored entry `k`, which stands in row `r`, is the entry of the dense
/// matrix of the columns `dense` in that row and in the column that the
/// column index `k` names.
pub open spec fn is_stored_entry<T>(
    dense: Seq<Seq<T>>,
    indices: Seq<usize>,
    values: Seq<T>,
    r: int,
    k: int,
) -> bool {
    values[k] == dense[indices[k] as int][r]
}

/// Every stored entry is the entry of the dense matrix of the columns `dense`
/// at its place.
pub open spec fn stores_entries_of<T>(
    dense: Seq<Seq<T>>,
    offsets: Seq<usize>,
    indices: Seq<usize>,
    values: Seq<T>,
) -> bool {
    forall|r: int, k: int|
        0 <= r < offsets.len() - 1 && offsets[r] <= k < offsets[r + 1]
            ==> #[trigger] is_stored_entry(dense, indices, values, r, k)
}

/// The row offsets, column indices and values of the compressed sparse row
/// form of `dense`, as `nalgebra_sparse`'s `CsrMatrix::from` converts it and
/// `CsrMatrix::disassemble` hands it out. The conversion goes through the
/// rows in their order and through each row from left to right, and keeps
/// the entries that the scalar type does not take for zero. The contract
/// says that what comes out is in compressed sparse row form, which
/// `CsrMatrix::try_from_csr_data` checks on the way, and that every stored
/// entry is the entry of `dense` at its place; which entries are kept it
/// leaves open.
#[verifier::external_body]
pub(crate) fn dense_to_csr<T: nalgebra::RealField + Copy>(dense: &Matrix<T>) -> (parts: (
    Vec<usize>,
    Vec<usize>,
    Vec<T>,
))
    ensures
        is_csr(dense.rows(), dense@.len(), parts.0@, parts.1@, parts.2@.len()),
        stores_entries_of(dense@, parts.0@, parts.1@, parts.2@),
{
    let dense = nalgebra::DMatrix::from_column_slice(dense.nrows, dense.ncols, &dense.data);
    nalgebra_sparse::CsrMatrix::from(&dense).disassemble()
}

/// The product of `matrix` with `vector`, as `nalgebra_sparse`'s operator `*`
/// on a `CsrMatrix` and a dense vector computes it. The `CsrMatrix` is built
/// by `try_from_csr_data`, which refuses what is not in compressed sparse row
/// form; the product panics unless `vector` has as many entries as `matrix`
/// has columns. The product has as many entries as `matrix` has rows.
#[verifier::external_body]
fn nalgebra_sparse_product<T: nalgebra::RealField + Copy>(
    matrix: &SparseMatrix<T>,
    vector: &Vec<T>,
) -> (product: Vec<T>)
    requires
        matrix.well_formed(),
        vector@.len() == matrix.cols(),
    ensures
        product@.len() == matrix.rows(),
{
    let csr = nalgebra_sparse::CsrMatrix::try_from_csr_data(
        matrix.nrows,
        matrix.ncols,
        matrix.row_offsets.clone(),
        matrix.col_indices.clone(),
        matrix.values.clone(),
    ).unwrap();
    (&csr * &nalgebra::DVector::from_column_slice(vector)).as_slice().to_vec()
}

/// `product` is a product that `nalgebra_sparse` gives for `matrix` and the
/// vector of the entries `vector`.
pub closed spec fn is_sparse_product<T: nalgebra::RealField + Copy>(
    matrix: SparseMatrix<T>,
    vector: Seq<T>,
    product: Seq<T>,
) -> bool {
    exists|v: Vec<T>, p: Vec<T>|
        {
            &&& #[trigger] call_ensures(nalgebra_sparse_product::<T>, (&matrix, &v), p)
            &&& v@ == vector
            &&& p@ == product
        }
}

/// The product of `matrix` with `vector`.
pub(crate) fn csr_product<T: nalgebra::RealField + Copy>(
    matrix: &SparseMatrix<T>,
    vector: &Vec<T>,
) -> (product: Vec<T>)
    requires
        matrix.well_formed(),
        vector@.len() == matrix.cols(),
    ensures
        product@.len() == matrix.rows(),
        is_sparse_product(*matrix, vector@, product@),
{
    nalgebra_sparse_product(matrix, vector)
}

/// A sparse matrix in compressed sparse row form.
#[derive(Debug)]
pub struct SparseMatrix<T> {
    pub(crate) nrows: usize,
    pub(crate) ncols: usize,
    pub(crate) row_offsets: Vec<usize>,
    pub(crate) col_indices: Vec<usize>,
    pub(crate) values: Vec<T>,
}

impl<T> SparseMatrix<T> {
    #[verifier::type_invariant]
    pub closed spec fn well_formed(&self) -> bool {
        is_csr(
            self.nrows as nat,
            self.ncols as nat,
            self.row_offsets@,
            self.col_indices@,
            self.values@.len(),
        )
    }

    /// The number of rows.
    pub closed spec fn rows(&self) -> nat {
        self.nrows as nat
    }

    /// The number of columns.
    pub closed spec fn cols(&self) -> nat {
        self.ncols as nat
    }

    /// The row offsets.
    pub closed spec fn offsets(&self) -> Seq<usize> {
        self.row_offsets@
    }

    /// The column indices of the stored entries, row after row.
    pub closed spec fn indices(&self) -> Seq<usize> {
        self.col_indices@
    }

    /// The stored entries, row after row.
    pub closed spec fn stored(&self) -> Seq<T> {
        self.values@
    }

    pub fn nrows(&self) -> (n: usize)
        ensures
            n == self.rows(),
    {
        self.nrows
    }

    pub fn ncols(&self) -> (n: usize)
        ensures
            n == self.cols(),
    {
        self.ncols
    }
}

impl<T: Copy> Clone for SparseMatrix<T> {
    fn clone(&self) -> (copy: Self)
        ensures
            copy.rows() == self.rows(),
            copy.cols() == self.cols(),
            copy.offsets() == self.offsets(),
            copy.indices() == self.indices(),
            copy.stored() == self.stored(),
    {
        proof {
            use_type_invariant(self);
        }
        SparseMatrix {
            nrows: self.nrows,
            ncols: self.ncols,
            row_offsets: copy_of(&self.row_offsets),
            col_indices: copy_of(&self.col_indices),
            values: copy_of(&self.values),
        }
    }
}

impl<T: nalgebra::RealField + Copy> SparseMatrix<T> {
    /// The sparse form of `dense`: the entries that the scalar type does not
    /// take for zero, each at its place.
    pub fn from_dense(dense: &Matrix<T>) -> (sparse: Self)
        ensures
            sparse.rows() == dense.rows(),
            sparse.cols() == dense@.len(),
            stores_entries_of(dense@, sparse.offsets(), sparse.indices(), sparse.stored()),
    {
        let (row_offsets, col_indices, values) = dense_to_csr(dense);
        SparseMatrix {
            nrows: dense.nrows(),
            ncols: dense.ncols(),
            row_offsets,
            col_indices,
            values,
        }
    }

    /// Multiplies every stored entry by `factor`: each stored entry becomes
    /// what the scalar type's `*` gives for it and `factor`. Which entries are
    /// stored stays as it is.
    pub fn scale(&mut self, factor: T)
        ensures
            final(self).rows() == old(self).rows(),
            final(self).cols() == old(self).cols(),
            final(self).offsets() == old(self).offsets(),
            final(self).indices() == old(self).indices(),
            final(self).stored().len() == old(self).stored().len(),
            forall|k: int|
                0 <= k < old(self).stored().len() ==> is_product(
                    old(self).stored()[k],
                    factor,
                    #[trigger] final(self).stored()[k],
                ),
    {
        proof {
            use_type_invariant(&*self);
        }
        let count: usize = self.values.len();
        let mut k: usize = 0;
        while k < count
            invariant
                k <= count,
                count == self.values@.len(),
                self.nrows == old(self).nrows,
                self.ncols == old(self).ncols,
                self.row_offsets@ == old(self).row_offsets@,
                self.col_indices@ == old(self).col_indices@,
                self.values@.len() == old(self).values@.len(),
                self.well_formed(),
                forall|q: int|
                    0 <= q < k ==> is_product(
                        old(self).values@[q],
                        factor,
                        #[trigger] self.values@[q],
                    ),
                forall|q: int|
                    k <= q < count ==> #[trigger] self.values@[q] == old(self).values@[q],
            decreases count - k,
        {
            let scaled: T = times(self.values[k], factor);
            self.values[k] = scaled;
            k = k + 1;
        }
    }

    /// The product of the matrix with `vector`.
    pub fn times_vector(&self, vector: &Vec<T>) -> (product: Vec<T>)
        requires
            vector@.len() == self.cols(),
        ensures
            product@.len() == self.rows(),
            is_sparse_product(*self, vector@, product@),
    {
        proof {
            use_type_invariant(self);
        }
        csr_product(self, vector)
    }
}

} // verus!
