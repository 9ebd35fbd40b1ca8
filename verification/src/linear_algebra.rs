//! The linear algebra that `nalgebra` does for the reservoir.
//!
//! Each contract gives the size of a result and which sizes the operation
//! takes. The entries of a result come out of the scalar type's arithmetic,
//! which need not give the same digits on every machine; nothing is claimed
//! of them.
//!
//! Beside each operation stands a relation that holds of its operands and a
//! result exactly where `nalgebra` may give that result for those operands.
//! A relation says which operation a result came out of and with which
//! operands; it does not say that the operation gives the same result twice.

use vstd::prelude::*;

use crate::matrix::Matrix;

verus! {

/// `product` has the size of the product of a matrix, given by its columns of
/// `rows` entries each, with `vector`. No more is said: the entries are the
/// scalar type's arithmetic.
pub open spec fn may_multiply_to<T>(
    matrix: Seq<Seq<T>>,
    rows: nat,
    vector: Seq<T>,
    product: Seq<T>,
) -> bool {
    &&& vector.len() == matrix.len()
    &&& product.len() == rows
}

/// The product `left * right`, column by column in one buffer, as
/// `nalgebra`'s operator `*` on two `DMatrix` computes it. `nalgebra` panics
/// unless `left` has as many columns as `right` has rows. The product has the
/// rows of `left` and the columns of `right`.
#[verifier::external_body]
fn nalgebra_product<T: nalgebra::RealField + Copy>(
    left: &Matrix<T>,
    right: &Matrix<T>,
) -> (product: Vec<T>)
    requires
        left@.len() == right.rows(),
    ensures
        product@.len() == left.rows() * right@.len(),
{
    let left = nalgebra::DMatrix::from_column_slice(left.nrows, left.ncols, &left.data);
    let right = nalgebra::DMatrix::from_column_slice(right.nrows, right.ncols, &right.data);
    (left * right).as_slice().to_vec()
}

/// The sum `left + right`, column by column in one buffer, as `nalgebra`'s
/// operator `+` on two `DMatrix` computes it. `nalgebra` panics unless both
/// have the same size, which is the size of the sum.
#[verifier::external_body]
fn nalgebra_sum<T: nalgebra::RealField + Copy>(
    left: &Matrix<T>,
    right: &Matrix<T>,
) -> (sum: Vec<T>)
    requires
        left.rows() == right.rows(),
        left@.len() == right@.len(),
    ensures
        sum@.len() == left.rows() * left@.len(),
{
    let left = nalgebra::DMatrix::from_column_slice(left.nrows, left.ncols, &left.data);
    let right = nalgebra::DMatrix::from_column_slice(right.nrows, right.ncols, &right.data);
    (left + right).as_slice().to_vec()
}

/// The solution `x` of `system * x = right`, column by column in one buffer,
/// as `nalgebra::LU::new(system).solve(&right)` computes it, or `None` where
/// the decomposition finds `system` singular. `nalgebra` panics unless
/// `system` is square and `right` has its number of rows, and its triangular
/// solve counts down from the number of rows for every column of `right`, so
/// a system of no rows goes with no right-hand side only. A solution has the
/// size of `right`.
#[verifier::external_body]
fn nalgebra_lu_solve<T: nalgebra::RealField + Copy>(
    system: &Matrix<T>,
    right: &Matrix<T>,
) -> (solution: Option<Vec<T>>)
    requires
        system.rows() == system@.len(),
        right.rows() == system.rows(),
        system.rows() > 0 || right@.len() == 0,
    ensures
        solution matches Some(x) ==> x@.len() == right.rows() * right@.len(),
{
    let system = nalgebra::DMatrix::from_column_slice(system.nrows, system.ncols, &system.data);
    let right = nalgebra::DMatrix::from_column_slice(right.nrows, right.ncols, &right.data);
    match nalgebra::LU::new(system).solve(&right) {
        Some(x) => Some(x.as_slice().to_vec()),
        None => None,
    }
}

/// `vector` divided by its Euclidean norm, as `nalgebra`'s
/// `DVector::normalize_mut` computes it. The result has the length of
/// `vector`.
#[verifier::external_body]
pub(crate) fn normalized<T: nalgebra::RealField + Copy>(vector: &Vec<T>) -> (unit: Vec<T>)
    ensures
        unit@.len() == vector@.len(),
{
    let mut unit = nalgebra::DVector::from_column_slice(vector);
    unit.normalize_mut();
    unit.as_slice().to_vec()
}

/// The Euclidean norm of `vector`, as `nalgebra`'s `DVector::norm` computes
/// it. Nothing is claimed of the value.
#[verifier::external_body]
pub(crate) fn norm<T: nalgebra::RealField + Copy>(vector: &Vec<T>) -> (length: T) {
    nalgebra::DVector::from_column_slice(vector).norm()
}

/// `product` is, column after column, a product that `nalgebra` gives for
/// the matrix of the columns `left`, of `left_rows` entries each, and the
/// matrix of the columns `right`, of `right_rows` entries each.
pub closed spec fn is_matrix_product<T: nalgebra::RealField + Copy>(
    left: Seq<Seq<T>>,
    left_rows: nat,
    right: Seq<Seq<T>>,
    right_rows: nat,
    product: Seq<T>,
) -> bool {
    exists|l: Matrix<T>, r: Matrix<T>, p: Vec<T>|
        {
            &&& #[trigger] call_ensures(nalgebra_product::<T>, (&l, &r), p)
            &&& l@ == left
            &&& l.rows() == left_rows
            &&& r@ == right
            &&& r.rows() == right_rows
            &&& p@ == product
        }
}

/// `sum` is, column after column, a sum that `nalgebra` gives for the two
/// matrices of the columns `left` and `right`, of `rows` entries each.
pub closed spec fn is_matrix_sum<T: nalgebra::RealField + Copy>(
    left: Seq<Seq<T>>,
    right: Seq<Seq<T>>,
    rows: nat,
    sum: Seq<T>,
) -> bool {
    exists|l: Matrix<T>, r: Matrix<T>, s: Vec<T>|
        {
            &&& #[trigger] call_ensures(nalgebra_sum::<T>, (&l, &r), s)
            &&& l@ == left
            &&& l.rows() == rows
            &&& r@ == right
            &&& r.rows() == rows
            &&& s@ == sum
        }
}

/// `solution` is what `nalgebra`'s LU decomposition gives for the system of
/// the square matrix of the columns `system` and the right-hand sides
/// `right`, all columns of `rows` entries: a solution, column after column,
/// or `None`.
pub closed spec fn is_lu_solution<T: nalgebra::RealField + Copy>(
    system: Seq<Seq<T>>,
    right: Seq<Seq<T>>,
    rows: nat,
    solution: Option<Seq<T>>,
) -> bool {
    exists|a: Matrix<T>, b: Matrix<T>, x: Option<Vec<T>>|
        {
            &&& #[trigger] call_ensures(nalgebra_lu_solve::<T>, (&a, &b), x)
            &&& a@ == system
            &&& a.rows() == rows
            &&& b@ == right
            &&& b.rows() == rows
            &&& x.is_some() == solution.is_some()
            &&& x matches Some(found) ==> found@ == solution.unwrap()
        }
}

/// `product` is, column after column, a product that `nalgebra` gives for the
/// matrix of the columns `weights`, of `rows` entries each, and the matrix of
/// the columns `batch`, and `k` is one of its columns.
pub open spec fn is_column_of_product<T: nalgebra::RealField + Copy>(
    weights: Seq<Seq<T>>,
    rows: nat,
    batch: Seq<Seq<T>>,
    product: Seq<T>,
    k: int,
) -> bool {
    &&& 0 <= k < batch.len()
    &&& is_matrix_product(weights, rows, batch, weights.len(), product)
}

/// The entries of a solution, where there is one.
pub open spec fn solution_view<T>(solution: Option<Vec<T>>) -> Option<Seq<T>> {
    match solution {
        Some(x) => Some(x@),
        None => None,
    }
}

/// The product `left * right`, column after column in one buffer.
pub(crate) fn matrix_product<T: nalgebra::RealField + Copy>(
    left: &Matrix<T>,
    right: &Matrix<T>,
) -> (product: Vec<T>)
    requires
        left@.len() == right.rows(),
    ensures
        product@.len() == left.rows() * right@.len(),
        is_matrix_product(left@, left.rows(), right@, right.rows(), product@),
{
    nalgebra_product(left, right)
}

/// The sum `left + right`, column after column in one buffer.
pub(crate) fn matrix_sum<T: nalgebra::RealField + Copy>(
    left: &Matrix<T>,
    right: &Matrix<T>,
) -> (sum: Vec<T>)
    requires
        left.rows() == right.rows(),
        left@.len() == right@.len(),
    ensures
        sum@.len() == left.rows() * left@.len(),
        is_matrix_sum(left@, right@, left.rows(), sum@),
{
    nalgebra_sum(left, right)
}

/// The solution of `system * x = right`, column after column in one buffer,
/// or `None` where the decomposition finds `system` singular.
pub(crate) fn lu_solve<T: nalgebra::RealField + Copy>(
    system: &Matrix<T>,
    right: &Matrix<T>,
) -> (solution: Option<Vec<T>>)
    requires
        system.rows() == system@.len(),
        right.rows() == system.rows(),
        system.rows() > 0 || right@.len() == 0,
    ensures
        solution matches Some(x) ==> x@.len() == right.rows() * right@.len(),
        is_lu_solution(system@, right@, system.rows(), solution_view(solution)),
{
    nalgebra_lu_solve(system, right)
}

} // verus!
