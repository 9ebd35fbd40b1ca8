//! The projection that multiplies the stacked taps of a window by a matrix.

use vstd::prelude::*;

use crate::input_projection::default_input_projection::{is_row_sparse, random_row_sparse};
use crate::input_projection::{
    embedding_window_len, lemma_stacked_tap, lemma_stacked_taps_select_columns,
    stack_window_taps, stacked_taps, ReservoirInputProjection,
};
use crate::linear_algebra::{is_matrix_product, matrix_product, may_multiply_to};
use crate::matrix::{column_of, lemma_column_appended, Matrix, MatrixSlice};
use crate::scalar::zero_value;

verus! {

/// Stacks the first column of a window and `embeddings` later ones, `stride`
/// columns apart, and multiplies the stack by the matrix `w_in`.
#[derive(Debug)]
pub struct InputProjectionWithEmbedding<T> {
    w_in: Matrix<T>,
    input_dimensions: usize,
    embeddings: usize,
    stride: usize,
    padding: T,
}

impl<T: Copy> Clone for InputProjectionWithEmbedding<T> {
    fn clone(&self) -> (copy: Self)
        ensures
            copy.weights() == self.weights(),
            copy.weight_rows() == self.weight_rows(),
            copy.system_len() == self.system_len(),
            copy.tap_count() == self.tap_count(),
            copy.stride_len() == self.stride_len(),
            copy.padding_value() == self.padding_value(),
    {
        proof {
            use_type_invariant(self);
        }
        Self {
            w_in: self.w_in.clone(),
            input_dimensions: self.input_dimensions,
            embeddings: self.embeddings,
            stride: self.stride,
            padding: self.padding,
        }
    }
}

impl<T> InputProjectionWithEmbedding<T> {
    #[verifier::type_invariant]
    pub closed spec fn well_formed(&self) -> bool {
        &&& self.embeddings > 0 ==> self.stride > 0
        &&& self.embeddings < usize::MAX
        &&& 1 + self.embeddings * self.stride <= usize::MAX
        &&& self.input_dimensions * (self.embeddings + 1) <= self.w_in@.len()
    }

    /// The columns of the matrix.
    pub closed spec fn weights(&self) -> Seq<Seq<T>> {
        self.w_in@
    }

    /// The number of rows of the matrix.
    pub closed spec fn weight_rows(&self) -> nat {
        self.w_in.rows()
    }

    /// The distance between two taps.
    pub closed spec fn stride_len(&self) -> nat {
        self.stride as nat
    }

    /// The number of rows of the input.
    pub closed spec fn system_len(&self) -> nat {
        self.input_dimensions as nat
    }

    /// The number of taps after the first column of a window.
    pub closed spec fn tap_count(&self) -> nat {
        self.embeddings as nat
    }

    /// The value that fills the columns of the matrix for which the taps
    /// leave no entry.
    pub closed spec fn padding_value(&self) -> T {
        self.padding
    }

    /// The vector that the matrix is multiplied with for `window`: the
    /// stacked taps, filled up to the number of columns of the matrix.
    pub open spec fn embedded(&self, window: Seq<Seq<T>>) -> Seq<T> {
        let taps = stacked_taps(window, self.system_len(), self.tap_count(), self.stride_len());
        taps + Seq::new((self.weights().len() - taps.len()) as nat, |i: int| self.padding_value())
    }
}

impl<T> InputProjectionWithEmbedding<T> {
    /// The vector that the matrix is multiplied with has as many entries as
    /// the matrix has columns.
    pub proof fn lemma_embedded_len(&self, window: Seq<Seq<T>>)
        requires
            self.well_formed(),
        ensures
            self.embedded(window).len() == self.weights().len(),
    {
    }
}

impl<T> InputProjectionWithEmbedding<T> {
    /// The vector that the matrix is multiplied with for the window that
    /// starts at column `position` of `inputs` holds the columns `position`,
    /// `position + stride`, ..., `position + embeddings * stride` of `inputs`,
    /// one after the other. It is the same vector for one projection of that
    /// window alone and for the projection of every window of `inputs`.
    pub proof fn lemma_embedded_selects_columns(&self, inputs: Seq<Seq<T>>, position: int)
        requires
            self.well_formed(),
            0 <= position,
            position + embedding_window_len(self.tap_count(), self.stride_len()) <= inputs.len(),
        ensures
            forall|t: int, q: int|
                0 <= t <= self.tap_count() && 0 <= q < self.system_len()
                    ==> #[trigger] self.embedded(
                    inputs.subrange(
                        position,
                        position + embedding_window_len(self.tap_count(), self.stride_len()),
                    ),
                )[t * self.system_len() + q] == inputs[position + t * self.stride_len()][q],
    {
        lemma_stacked_taps_select_columns(
            inputs,
            position,
            self.system_len(),
            self.tap_count(),
            self.stride_len(),
        );
        let window = inputs.subrange(
            position,
            position + embedding_window_len(self.tap_count(), self.stride_len()),
        );
        assert forall|t: int, q: int|
            0 <= t <= self.tap_count() && 0 <= q < self.system_len()
                implies #[trigger] self.embedded(window)[t * self.system_len() + q]
            == inputs[position + t * self.stride_len()][q] by {
            lemma_stacked_tap(
                window,
                self.system_len(),
                self.tap_count(),
                self.stride_len(),
                t,
                q,
            );
            assert(stacked_taps(
                window,
                self.system_len(),
                self.tap_count(),
                self.stride_len(),
            )[t * self.system_len() + q] == inputs[position + t * self.stride_len()][q]);
        }
    }
}

impl<T: Copy> InputProjectionWithEmbedding<T> {
    /// Stacks the taps of the window of `inputs` that starts at column
    /// `position` and fills the stack up to the number of columns of the
    /// matrix.
    pub fn embed(&self, inputs: &MatrixSlice<'_, T>, position: usize) -> (stacked: Vec<T>)
        requires
            inputs.rows() == self.system_len(),
            position + embedding_window_len(self.tap_count(), self.stride_len()) <= inputs@.len(),
        ensures
            stacked@ == self.embedded(
                inputs@.subrange(
                    position as int,
                    position + embedding_window_len(self.tap_count(), self.stride_len()),
                ),
            ),
            stacked@.len() == self.weights().len(),
    {
        proof {
            use_type_invariant(self);
        }
        let total: usize = self.w_in.ncols();
        let mut stacked = stack_window_taps(inputs, position, self.embeddings, self.stride);
        let ghost taps = stacked@;
        while stacked.len() < total
            invariant
                taps.len() <= stacked@.len() <= total,
                stacked@ == taps + Seq::new(
                    (stacked@.len() - taps.len()) as nat,
                    |i: int| self.padding,
                ),
            decreases total - stacked@.len(),
        {
            let ghost before = stacked@;
            stacked.push(self.padding);
            proof {
                assert(stacked@ =~= taps + Seq::new(
                    (stacked@.len() - taps.len()) as nat,
                    |i: int| self.padding,
                ));
            }
        }
        stacked
    }
}

impl<T: nalgebra::RealField + Copy> InputProjectionWithEmbedding<T> {
    /// The projection by `matrix` of windows with `embeddings` taps at
    /// distance `stride`. The input has as many rows as the columns of
    /// `matrix` hold `1 + embeddings` times. A stride of 0 goes with no tap
    /// only.
    pub fn new_with_matrix(
        matrix: Matrix<T>,
        embeddings: usize,
        stride: usize,
    ) -> (projection: Self)
        requires
            embeddings > 0 ==> stride != 0,
            embeddings < usize::MAX,
            1 + embeddings * stride <= usize::MAX,
        ensures
            projection.weights() == matrix@,
            projection.weight_rows() == matrix.rows(),
            projection.output_len() == matrix.rows(),
            projection.system_len() == matrix@.len() / (1 + embeddings) as nat,
            projection.tap_count() == embeddings,
            projection.stride_len() == stride,
    {
        let input_dimensions: usize = matrix.ncols() / (1 + embeddings);
        proof {
            let n = matrix@.len() as int;
            let d = (1 + embeddings) as int;
            vstd::arithmetic::div_mod::lemma_fundamental_div_mod(n, d);
            vstd::arithmetic::div_mod::lemma_mod_bound(n, d);
            vstd::arithmetic::mul::lemma_mul_is_commutative(d, n / d);
            assert(embeddings + 1 == 1 + embeddings);
        }
        Self { w_in: matrix, input_dimensions, embeddings, stride, padding: zero_value() }
    }
}

impl<
    T: nalgebra::RealField + Copy + rand::distributions::uniform::SampleUniform,
> InputProjectionWithEmbedding<T> {
    /// A random projection of windows with `embeddings` taps at distance
    /// `stride` of inputs of `system_dim` rows to `output_dim` entries: each
    /// output reads one entry of the stacked taps, drawn at random, with a
    /// weight drawn at random between -1 and 1.
    pub fn new_random(
        system_dim: usize,
        output_dim: usize,
        embeddings: usize,
        stride: usize,
    ) -> (projection: Self)
        requires
            stride != 0,
            system_dim > 0,
            embeddings < usize::MAX,
            1 + embeddings * stride <= usize::MAX,
            system_dim * (1 + embeddings) <= usize::MAX,
            output_dim * (system_dim * (1 + embeddings)) <= usize::MAX,
        ensures
            projection.weight_rows() == output_dim,
            projection.output_len() == output_dim,
            projection.weights().len() == system_dim * (1 + embeddings),
            is_row_sparse(projection.weights(), output_dim as nat, None),
            projection.system_len() == system_dim,
            projection.tap_count() == embeddings,
            projection.stride_len() == stride,
    {
        let input_dim: usize = system_dim * (1 + embeddings);
        proof {
            assert(system_dim * (1 + embeddings) > 0) by (nonlinear_arith)
                requires
                    system_dim > 0,
                    embeddings >= 0,
            ;
            assert(system_dim * (embeddings + 1) == system_dim * (1 + embeddings));
        }
        let w_in = random_row_sparse(output_dim, input_dim, None);
        Self { w_in, input_dimensions: system_dim, embeddings, stride, padding: zero_value() }
    }
}

impl<T> ReservoirInputProjection<T> for InputProjectionWithEmbedding<T> {
    open spec fn input_len(&self) -> nat {
        self.system_len()
    }

    open spec fn embedding_count(&self) -> nat {
        self.tap_count()
    }

    open spec fn window_len(&self) -> nat {
        embedding_window_len(self.tap_count(), self.stride_len())
    }

    open spec fn output_len(&self) -> nat {
        self.weight_rows()
    }

    /// The projection is a product that `nalgebra` gives for the matrix and
    /// the one column of the stacked taps of the window.
    open spec fn projects(&self, window: Seq<Seq<T>>, projected: Seq<T>) -> bool where
        T: nalgebra::RealField + Copy,
    {
        &&& may_multiply_to(self.weights(), self.weight_rows(), self.embedded(window), projected)
        &&& is_matrix_product(
            self.weights(),
            self.weight_rows(),
            seq![self.embedded(window)],
            self.weights().len(),
            projected,
        )
    }

    fn output_dimensions(&self) -> (n: usize) {
        self.w_in.nrows()
    }

    fn input_dimension(&self) -> (n: usize) {
        self.input_dimensions
    }

    fn embeddings(&self) -> (n: usize) {
        self.embeddings
    }

    fn required_input_columns(&self) -> (n: usize) {
        proof {
            use_type_invariant(self);
            assert(0 <= self.embeddings * self.stride) by (nonlinear_arith);
        }
        1 + self.embeddings * self.stride
    }

    fn project(&self, input: MatrixSlice<'_, T>) -> (projected: Vec<T>) where
        T: nalgebra::RealField + Copy,
    {
        proof {
            assert(input@.subrange(0, input@.len() as int) =~= input@);
        }
        self.project_window(&input, 0)
    }

    fn project_into(&self, input: MatrixSlice<'_, T>, target: &mut Vec<T>) where
        T: nalgebra::RealField + Copy,
    {
        *target = self.project(input);
    }

    fn project_many(&self, inputs: MatrixSlice<'_, T>) -> (projected: Matrix<T>) where
        T: nalgebra::RealField + Copy,
    {
        let positions: usize = inputs.ncols() - self.required_input_columns() + 1;
        let rows: usize = self.w_in.nrows();
        let mut data: Vec<T> = Vec::new();
        let mut k: usize = 0;
        while k < positions
            invariant
                k <= positions,
                inputs.rows() == self.input_len(),
                positions + self.window_len() == inputs@.len() + 1,
                rows == self.w_in.rows(),
                data@.len() == k * rows,
                forall|c: int|
                    0 <= c < k ==> self.projects(
                        inputs@.subrange(c, c + self.window_len()),
                        #[trigger] column_of(data@, rows as nat, c),
                    ),
            decreases positions - k,
        {
            let ghost before = data@;
            let mut column = self.project_window(&inputs, k);
            proof {
                lemma_column_appended(before, column@, rows as nat, k as int);
            }
            data.append(&mut column);
            k = k + 1;
        }
        proof {
            assert(positions * rows == rows * positions) by (nonlinear_arith);
        }
        Matrix::from_vec(rows, positions, data)
    }

    fn project_many_into(&self, inputs: MatrixSlice<'_, T>, targets: &mut Matrix<T>) where
        T: nalgebra::RealField + Copy,
    {
        let positions: usize = targets.ncols();
        let mut k: usize = 0;
        while k < positions
            invariant
                k <= positions,
                inputs.rows() == self.input_len(),
                positions + self.window_len() <= inputs@.len() + 1,
                positions == targets@.len(),
                targets.rows() == self.output_len(),
                forall|c: int|
                    0 <= c < k ==> self.projects(
                        inputs@.subrange(c, c + self.window_len()),
                        #[trigger] targets@[c],
                    ),
            decreases positions - k,
        {
            let column = self.project_window(&inputs, k);
            targets.set_column(k, &column);
            k = k + 1;
        }
    }
}

impl<T: nalgebra::RealField + Copy> InputProjectionWithEmbedding<T> {
    /// Projects the window of `inputs` that starts at column `position`.
    fn project_window(&self, inputs: &MatrixSlice<'_, T>, position: usize) -> (projected: Vec<T>)
        requires
            inputs.rows() == self.system_len(),
            position + embedding_window_len(self.tap_count(), self.stride_len()) <= inputs@.len(),
        ensures
            projected@.len() == self.weight_rows(),
            self.projects(
                inputs@.subrange(
                    position as int,
                    position + embedding_window_len(self.tap_count(), self.stride_len()),
                ),
                projected@,
            ),
    {
        let temporary = self.embed(inputs, position);
        proof {
            assert(temporary.len() == self.w_in@.len());
            assert(self.w_in@.len() * 1 == self.w_in@.len()) by (nonlinear_arith);
            assert(self.w_in.rows() * 1 == self.w_in.rows()) by (nonlinear_arith);
        }
        let column = Matrix::repeated(&temporary, 1);
        proof {
            assert(column@ =~= seq![temporary@]);
        }
        matrix_product(&self.w_in, &column)
    }
}

} // verus!
