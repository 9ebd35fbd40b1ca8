//! The projection that multiplies one input column by a matrix.

use vstd::prelude::*;

use crate::input_projection::ReservoirInputProjection;
use crate::linear_algebra::{is_column_of_product, matrix_product, may_multiply_to};
use crate::matrix::{column_of, Matrix, MatrixSlice};
use crate::random::{is_symmetric_draw, sample_index, sample_symmetric};
use crate::scalar::{is_product, is_zero, times, zero_value};

verus! {

/// `weight` is a weight of a random projection: a scalar drawn at random
/// between -1 and 1, or, where a strength is given, a value that the scalar
/// type's `*` gives for the strength and such a draw.
pub open spec fn is_drawn_weight<
    T: nalgebra::RealField + Copy + rand::distributions::uniform::SampleUniform,
>(strength: Option<T>, weight: T) -> bool {
    exists|draw: T|
        {
            &&& #[trigger] is_symmetric_draw(draw)
            &&& strength is None ==> weight == draw
            &&& strength matches Some(factor) ==> is_product(factor, draw, weight)
        }
}

/// Row `i` of the matrix, given by its columns of `rows` entries each, holds
/// the zero `rest` everywhere but in column `chosen[i]`, where it holds a
/// drawn weight.
pub open spec fn reads_one_each<
    T: nalgebra::RealField + Copy + rand::distributions::uniform::SampleUniform,
>(columns: Seq<Seq<T>>, rows: nat, strength: Option<T>, rest: T, chosen: Seq<int>) -> bool {
    &&& is_zero(rest)
    &&& chosen.len() == rows
    &&& forall|i: int| 0 <= i < rows ==> 0 <= #[trigger] chosen[i] < columns.len()
    &&& forall|i: int|
        0 <= i < rows ==> is_drawn_weight(strength, #[trigger] columns[chosen[i]][i])
    &&& forall|i: int, j: int|
        0 <= i < rows && 0 <= j < columns.len() && j != chosen[i] ==> #[trigger] columns[j][i]
            == rest
}

/// In every row of the matrix one entry is a drawn weight, and all others
/// are one zero that the scalar type gives.
pub open spec fn is_row_sparse<
    T: nalgebra::RealField + Copy + rand::distributions::uniform::SampleUniform,
>(columns: Seq<Seq<T>>, rows: nat, strength: Option<T>) -> bool {
    exists|rest: T, chosen: Seq<int>| #[trigger]
        reads_one_each(columns, rows, strength, rest, chosen)
}

/// A matrix of `nrows` rows and `ncols` columns of zeros, but for one entry
/// in each row, in a column drawn at random: a scalar drawn at random between
/// -1 and 1, times `strength` where one is given.
pub(crate) fn random_row_sparse<
    T: nalgebra::RealField + Copy + rand::distributions::uniform::SampleUniform,
>(nrows: usize, ncols: usize, strength: Option<T>) -> (m: Matrix<T>)
    requires
        ncols > 0,
        nrows * ncols <= usize::MAX,
    ensures
        m.rows() == nrows,
        m@.len() == ncols,
        is_row_sparse(m@, nrows as nat, strength),
{
    let zero: T = zero_value();
    let mut m = Matrix::filled(nrows, ncols, zero);
    let ghost mut chosen: Seq<int> = Seq::empty();
    let mut row: usize = 0;
    while row < nrows
        invariant
            row <= nrows,
            ncols > 0,
            m.rows() == nrows,
            m@.len() == ncols,
            forall|j: int| 0 <= j < ncols ==> (#[trigger] m@[j]).len() == nrows,
            chosen.len() == row,
            forall|i: int| 0 <= i < row ==> 0 <= #[trigger] chosen[i] < ncols,
            forall|i: int|
                0 <= i < row ==> is_drawn_weight(strength, #[trigger] m@[chosen[i]][i]),
            forall|i: int, j: int|
                0 <= i < row && 0 <= j < ncols && j != chosen[i] ==> #[trigger] m@[j][i] == zero,
            forall|i: int, j: int|
                row <= i < nrows && 0 <= j < ncols ==> #[trigger] m@[j][i] == zero,
        decreases nrows - row,
    {
        let choice: usize = sample_index(ncols);
        let value: T = sample_symmetric();
        let weight: T = match strength {
            Some(factor) => times(factor, value),
            None => value,
        };
        proof {
            assert(is_drawn_weight(strength, weight));
        }
        let ghost before = m@;
        m.set(row, choice, weight);
        proof {
            assert forall|i: int| 0 <= i < row implies is_drawn_weight(
                strength,
                #[trigger] m@[chosen[i]][i],
            ) by {
                assert(m@[chosen[i]][i] == before[chosen[i]][i]);
            }
            chosen = chosen.push(choice as int);
        }
        row = row + 1;
    }
    proof {
        assert(reads_one_each(m@, nrows as nat, strength, zero, chosen));
    }
    m
}

/// Projects one input column by multiplying it with the matrix `w_in`.
#[derive(Debug)]
pub struct DefaultInputProjection<T> {
    w_in: Matrix<T>,
}

impl<T: Copy> Clone for DefaultInputProjection<T> {
    fn clone(&self) -> (copy: Self)
        ensures
            copy.weights() == self.weights(),
            copy.weight_rows() == self.weight_rows(),
    {
        Self { w_in: self.w_in.clone() }
    }
}

impl<T> DefaultInputProjection<T> {
    /// The columns of the matrix.
    pub closed spec fn weights(&self) -> Seq<Seq<T>> {
        self.w_in@
    }

    /// The number of rows of the matrix.
    pub closed spec fn weight_rows(&self) -> nat {
        self.w_in.rows()
    }

    /// The projection by `matrix`.
    pub fn new_with_matrix(matrix: Matrix<T>) -> (projection: Self)
        ensures
            projection.weights() == matrix@,
            projection.weight_rows() == matrix.rows(),
            projection.output_len() == matrix.rows(),
            projection.input_len() == matrix@.len(),
    {
        Self { w_in: matrix }
    }
}

impl<
    T: nalgebra::RealField + Copy + rand::distributions::uniform::SampleUniform,
> DefaultInputProjection<T> {
    /// A random projection from `input_dim` to `output_dim` entries: each
    /// output reads one input, drawn at random, with a weight drawn at random
    /// between `-input_strength` and `input_strength`.
    pub fn new_random(input_dim: usize, output_dim: usize, input_strength: T) -> (projection: Self)
        requires
            input_dim > 0,
            output_dim * input_dim <= usize::MAX,
        ensures
            projection.weight_rows() == output_dim,
            projection.weights().len() == input_dim,
            projection.output_len() == output_dim,
            projection.input_len() == input_dim,
            is_row_sparse(projection.weights(), output_dim as nat, Some(input_strength)),
    {
        Self { w_in: random_row_sparse(output_dim, input_dim, Some(input_strength)) }
    }
}

impl<T> ReservoirInputProjection<T> for DefaultInputProjection<T> {
    open spec fn input_len(&self) -> nat {
        self.weights().len()
    }

    /// A projection of this kind has no tap, and says 1.
    open spec fn embedding_count(&self) -> nat {
        1
    }

    open spec fn window_len(&self) -> nat {
        1
    }

    open spec fn output_len(&self) -> nat {
        self.weight_rows()
    }

    /// The projection is a column of a product that `nalgebra` gives for the
    /// matrix and a matrix of input columns, in which the one column of the
    /// window stands in the same column.
    open spec fn projects(&self, window: Seq<Seq<T>>, projected: Seq<T>) -> bool where
        T: nalgebra::RealField + Copy,
    {
        &&& may_multiply_to(self.weights(), self.weight_rows(), window[0], projected)
        &&& exists|batch: Seq<Seq<T>>, product: Seq<T>, k: int|
            {
                &&& #[trigger] is_column_of_product(
                    self.weights(),
                    self.weight_rows(),
                    batch,
                    product,
                    k,
                )
                &&& batch[k] == window[0]
                &&& column_of(product, self.weight_rows(), k) == projected
            }
    }

    fn output_dimensions(&self) -> (n: usize) {
        self.w_in.nrows()
    }

    fn input_dimension(&self) -> (n: usize) {
        self.w_in.ncols()
    }

    fn embeddings(&self) -> (n: usize) {
        1
    }

    fn required_input_columns(&self) -> (n: usize) {
        1
    }

    fn project(&self, input: MatrixSlice<'_, T>) -> (projected: Vec<T>) where
        T: nalgebra::RealField + Copy,
    {
        proof {
            use_type_invariant(&input);
            input.lemma_shape();
            assert(self.w_in.rows() * 1 == self.w_in.rows()) by (nonlinear_arith);
        }
        let batch = input.to_matrix();
        let projected = matrix_product(&self.w_in, &batch);
        proof {
            assert(column_of(projected@, self.w_in.rows(), 0) =~= projected@);
            assert(is_column_of_product(
                self.weights(),
                self.weight_rows(),
                batch@,
                projected@,
                0,
            ));
        }
        projected
    }

    fn project_into(&self, input: MatrixSlice<'_, T>, target: &mut Vec<T>) where
        T: nalgebra::RealField + Copy,
    {
        *target = self.project(input);
    }

    fn project_many(&self, inputs: MatrixSlice<'_, T>) -> (projected: Matrix<T>) where
        T: nalgebra::RealField + Copy,
    {
        let count: usize = inputs.ncols();
        let batch = inputs.to_matrix();
        let product = matrix_product(&self.w_in, &batch);
        let ghost entries = product@;
        let projected = Matrix::from_vec(self.w_in.nrows(), count, product);
        proof {
            use_type_invariant(&projected);
            use_type_invariant(&inputs);
            projected.lemma_shape();
            inputs.lemma_shape();
            assert forall|k: int| 0 <= k < projected@.len() implies self.projects(
                inputs@.subrange(k, k + self.window_len()),
                #[trigger] projected@[k],
            ) by {
                assert(inputs@.subrange(k, k + 1)[0] == inputs@[k]);
                assert(is_column_of_product(
                    self.weights(),
                    self.weight_rows(),
                    batch@,
                    entries,
                    k,
                ));
            }
        }
        projected
    }

    fn project_many_into(&self, inputs: MatrixSlice<'_, T>, targets: &mut Matrix<T>) where
        T: nalgebra::RealField + Copy,
    {
        if targets.ncols() > 0 {
            *targets = self.project_many(inputs.columns(0, targets.ncols()));
        }
    }
}

} // verus!
