//! The projection that hands the taps of a window on unchanged.

use std::marker::PhantomData;
use vstd::prelude::*;

use crate::input_projection::{
    embedding_window_len, lemma_stacked_taps_select_columns, projects_one, stack_window_taps,
    stacked_taps, ReservoirInputProjection,
};
use crate::matrix::{column_of, Matrix, MatrixSlice};

verus! {

/// Stacks the first column of a window and `embeddings` later ones, `stride`
/// columns apart, into one vector.
#[derive(Debug)]
pub struct IdentityProjectionWithEmbedding<T> {
    input_dimensions: usize,
    embeddings: usize,
    stride: usize,
    _phantom: PhantomData<T>,
}

impl<T> Clone for IdentityProjectionWithEmbedding<T> {
    fn clone(&self) -> (copy: Self)
        ensures
            copy == *self,
    {
        proof {
            use_type_invariant(self);
        }
        IdentityProjectionWithEmbedding {
            input_dimensions: self.input_dimensions,
            embeddings: self.embeddings,
            stride: self.stride,
            _phantom: PhantomData,
        }
    }
}

impl<T> IdentityProjectionWithEmbedding<T> {
    #[verifier::type_invariant]
    pub closed spec fn well_formed(&self) -> bool {
        &&& self.embeddings > 0 ==> self.stride > 0
        &&& self.embeddings < usize::MAX
        &&& self.input_dimensions * (self.embeddings + 1) <= usize::MAX
        &&& 1 + self.embeddings * self.stride <= usize::MAX
    }

    /// The distance between two taps.
    pub closed spec fn stride_len(&self) -> nat {
        self.stride as nat
    }

    /// The number of rows of the input.
    pub closed spec fn system_len(&self) -> nat {
        self.input_dimensions as nat
    }

    /// The number of taps after the first column of a window.
    pub closed spec fn tap_count(&self) -> nat {
        self.embeddings as nat
    }

    /// A projection of inputs of `system_dim` rows with `embeddings` taps at
    /// distance `stride`. A stride of 0 goes with no tap only.
    pub fn new(system_dim: usize, embeddings: usize, stride: usize) -> (p: Self)
        requires
            embeddings > 0 ==> stride != 0,
            embeddings < usize::MAX,
            system_dim * (embeddings + 1) <= usize::MAX,
            1 + embeddings * stride <= usize::MAX,
        ensures
            p.system_len() == system_dim,
            p.tap_count() == embeddings,
            p.stride_len() == stride,
            p.well_formed(),
    {
        IdentityProjectionWithEmbedding {
            input_dimensions: system_dim,
            embeddings,
            stride,
            _phantom: PhantomData,
        }
    }

    /// The stride.
    pub fn stride(&self) -> (n: usize)
        ensures
            n == self.stride_len(),
    {
        self.stride
    }
}

impl<T: nalgebra::RealField + Copy> IdentityProjectionWithEmbedding<T> {
    /// The projection has as many entries as the input has rows, once for the
    /// first column of a window and once for every tap.
    pub proof fn lemma_output_dimension(self)
        ensures
            self.output_len() == self.input_len() * (1 + self.embedding_count()),
    {
    }

    /// The projection gives one vector for a window.
    pub proof fn lemma_projects_one(self)
        ensures
            projects_one(self),
    {
    }

    /// Projecting the window that starts at column `position` of `inputs`
    /// alone gives column `position` of the projection of every window of
    /// `inputs`, and both hold the columns `position`, `position + stride`,
    /// ..., `position + embeddings * stride` of `inputs`, one after the other
    /// (that these columns lie in the window is `lemma_tap_in_window`).
    pub proof fn lemma_project_agrees_with_project_many(
        self,
        inputs: Seq<Seq<T>>,
        position: int,
        single: Seq<T>,
        many: Seq<Seq<T>>,
    )
        requires
            0 <= position,
            position + self.window_len() <= inputs.len(),
            self.projects(inputs.subrange(position, position + self.window_len()), single),
            many.len() == inputs.len() - self.window_len() + 1,
            forall|k: int|
                0 <= k < many.len() ==> self.projects(
                    inputs.subrange(k, k + self.window_len()),
                    #[trigger] many[k],
                ),
        ensures
            single == many[position],
            forall|t: int, q: int|
                0 <= t <= self.embedding_count() && 0 <= q < self.input_len()
                    ==> #[trigger] single[t * self.input_len() + q] == inputs[position + t
                    * self.stride_len()][q],
    {
        lemma_stacked_taps_select_columns(
            inputs,
            position,
            self.system_len(),
            self.tap_count(),
            self.stride_len(),
        );
        assert(self.projects(
            inputs.subrange(position, position + self.window_len()),
            many[position],
        ));
        assert forall|t: int, q: int|
            0 <= t <= self.embedding_count() && 0 <= q < self.input_len()
                implies #[trigger] single[t * self.input_len() + q] == inputs[position + t
            * self.stride_len()][q] by {
            assert(stacked_taps(
                inputs.subrange(
                    position,
                    position + embedding_window_len(self.tap_count(), self.stride_len()),
                ),
                self.system_len(),
                self.tap_count(),
                self.stride_len(),
            )[t * self.system_len() + q] == inputs[position + t * self.stride_len()][q]);
        }
    }
}

impl<T: Copy> ReservoirInputProjection<T> for IdentityProjectionWithEmbedding<T> {
    open spec fn input_len(&self) -> nat {
        self.system_len()
    }

    open spec fn embedding_count(&self) -> nat {
        self.tap_count()
    }

    open spec fn window_len(&self) -> nat {
        embedding_window_len(self.tap_count(), self.stride_len())
    }

    open spec fn output_len(&self) -> nat {
        self.system_len() * (1 + self.tap_count())
    }

    /// The projection of a window is the stack of its taps.
    open spec fn projects(&self, window: Seq<Seq<T>>, projected: Seq<T>) -> bool where
        T: nalgebra::RealField + Copy,
    {
        projected == stacked_taps(window, self.system_len(), self.tap_count(), self.stride_len())
    }

    fn output_dimensions(&self) -> (n: usize) {
        proof {
            use_type_invariant(self);
        }
        self.input_dimensions * (self.embeddings + 1)
    }

    fn input_dimension(&self) -> (n: usize) {
        self.input_dimensions
    }

    fn embeddings(&self) -> (n: usize) {
        self.embeddings
    }

    fn required_input_columns(&self) -> (n: usize) {
        proof {
            use_type_invariant(self);
            assert(0 <= self.embeddings * self.stride) by (nonlinear_arith);
        }
        1 + self.embeddings * self.stride
    }

    fn project(&self, input: MatrixSlice<'_, T>) -> (projected: Vec<T>) where
        T: nalgebra::RealField + Copy,
    {
        proof {
            use_type_invariant(self);
            assert(input@.subrange(0, input@.len() as int) =~= input@);
        }
        stack_window_taps(&input, 0, self.embeddings, self.stride)
    }

    fn project_into(&self, input: MatrixSlice<'_, T>, target: &mut Vec<T>) where
        T: nalgebra::RealField + Copy,
    {
        *target = self.project(input);
    }

    fn project_many(&self, inputs: MatrixSlice<'_, T>) -> (projected: Matrix<T>) where
        T: nalgebra::RealField + Copy,
    {
        proof {
            use_type_invariant(self);
        }
        let positions: usize = inputs.ncols() - self.required_input_columns() + 1;
        let rows: usize = self.output_dimensions();
        let mut data: Vec<T> = Vec::new();
        let mut k: usize = 0;
        while k < positions
            invariant
                k <= positions,
                self.well_formed(),
                inputs.rows() == self.input_dimensions,
                positions + self.window_len() == inputs@.len() + 1,
                rows == self.input_dimensions * (self.embeddings + 1),
                data@.len() == k * rows,
                forall|c: int|
                    0 <= c < k ==> #[trigger] column_of(data@, rows as nat, c) == stacked_taps(
                        inputs@.subrange(c, c + self.window_len()),
                        self.input_dimensions as nat,
                        self.embeddings as nat,
                        self.stride as nat,
                    ),
            decreases positions - k,
        {
            let mut stacked = stack_window_taps(&inputs, k, self.embeddings, self.stride);
            let ghost before = data@;
            data.append(&mut stacked);
            proof {
                assert(k * rows + rows == (k + 1) * rows) by (nonlinear_arith);
                assert forall|c: int| 0 <= c < k + 1 implies #[trigger] column_of(
                    data@,
                    rows as nat,
                    c,
                ) == stacked_taps(
                    inputs@.subrange(c, c + self.window_len()),
                    self.input_dimensions as nat,
                    self.embeddings as nat,
                    self.stride as nat,
                ) by {
                    assert(0 <= c * rows && c * rows + rows <= (k + 1) * rows) by (nonlinear_arith)
                        requires
                            0 <= c < k + 1,
                            0 <= rows,
                    ;
                    if c < k {
                        assert(c * rows + rows <= k * rows) by (nonlinear_arith)
                            requires
                                0 <= c < k,
                                0 <= rows,
                        ;
                        assert(column_of(data@, rows as nat, c) =~= column_of(
                            before,
                            rows as nat,
                            c,
                        ));
                    } else {
                        assert(column_of(data@, rows as nat, c) =~= stacked_taps(
                            inputs@.subrange(c, c + self.window_len()),
                            self.input_dimensions as nat,
                            self.embeddings as nat,
                            self.stride as nat,
                        ));
                    }
                }
            }
            k = k + 1;
        }
        proof {
            assert(positions * rows == rows * positions) by (nonlinear_arith);
        }
        Matrix::from_vec(rows, positions, data)
    }

    fn project_many_into(&self, inputs: MatrixSlice<'_, T>, targets: &mut Matrix<T>) where
        T: nalgebra::RealField + Copy,
    {
        proof {
            use_type_invariant(self);
        }
        let positions: usize = targets.ncols();
        let ghost before = *targets;
        let mut k: usize = 0;
        while k < positions
            invariant
                k <= positions,
                self.well_formed(),
                inputs.rows() == self.input_dimensions,
                positions + self.window_len() <= inputs@.len() + 1,
                positions == targets@.len(),
                targets.rows() == self.input_dimensions * (self.embeddings + 1),
                forall|c: int|
                    0 <= c < k ==> #[trigger] targets@[c] == stacked_taps(
                        inputs@.subrange(c, c + self.window_len()),
                        self.input_dimensions as nat,
                        self.embeddings as nat,
                        self.stride as nat,
                    ),
            decreases positions - k,
        {
            let stacked = stack_window_taps(&inputs, k, self.embeddings, self.stride);
            targets.set_column(k, &stacked);
            k = k + 1;
        }
    }
}

} // verus!
