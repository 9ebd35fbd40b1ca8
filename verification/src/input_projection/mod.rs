//! Input projections: from a window of raw input columns to the vector that
//! drives the reservoir.

use vstd::prelude::*;

use crate::matrix::{Matrix, MatrixSlice};

pub mod default_input_projection;
pub mod identity_projection_with_embedding;
pub mod input_projection_with_embedding;

pub use default_input_projection::DefaultInputProjection;
pub use identity_projection_with_embedding::IdentityProjectionWithEmbedding;
pub use input_projection_with_embedding::InputProjectionWithEmbedding;

verus! {

/// The number of consecutive columns that a projection with `embeddings` taps
/// at distance `stride` reads.
pub open spec fn embedding_window_len(embeddings: nat, stride: nat) -> nat {
    1 + embeddings * stride
}

/// The taps of a window stacked into one vector: column 0, then the columns
/// at `stride`, `2 * stride`, ..., `embeddings * stride`, each of `rows`
/// entries.
pub open spec fn stacked_taps<T>(
    window: Seq<Seq<T>>,
    rows: nat,
    embeddings: nat,
    stride: nat,
) -> Seq<T> {
    Seq::new(
        rows * (embeddings + 1),
        |k: int| window[(k / rows as int) * stride][k % rows as int],
    )
}

/// Tap `t` of a window lies inside the window.
pub proof fn lemma_tap_in_window(embeddings: nat, stride: nat, t: int)
    requires
        0 <= t <= embeddings,
    ensures
        0 <= t * stride < embedding_window_len(embeddings, stride),
{
    assert(0 <= t * stride <= embeddings * stride) by (nonlinear_arith)
        requires
            0 <= t <= embeddings,
            0 <= stride,
    ;
}

/// Entry `q` of tap `t` sits at place `t * rows + q` of the stacked vector and
/// is entry `q` of window column `t * stride`.
pub proof fn lemma_stacked_tap<T>(
    window: Seq<Seq<T>>,
    rows: nat,
    embeddings: nat,
    stride: nat,
    t: int,
    q: int,
)
    requires
        0 <= t <= embeddings,
        0 <= q < rows,
    ensures
        0 <= t * rows + q < stacked_taps(window, rows, embeddings, stride).len(),
        stacked_taps(window, rows, embeddings, stride)[t * rows + q] == window[t * stride][q],
        0 <= t * stride < embedding_window_len(embeddings, stride),
{
    let k = t * rows + q;
    assert(0 <= t * rows && t * rows + rows <= rows * (embeddings + 1)) by (nonlinear_arith)
        requires
            0 <= t <= embeddings,
            0 <= rows,
    ;
    lemma_tap_in_window(embeddings, stride, t);
    vstd::arithmetic::div_mod::lemma_fundamental_div_mod_converse(k, rows as int, t, q);
}

/// The stacked taps of the window that starts at column `position` of
/// `inputs` hold the columns `position`, `position + stride`, ...,
/// `position + embeddings * stride` of `inputs`, one after the other.
pub proof fn lemma_stacked_taps_select_columns<T>(
    inputs: Seq<Seq<T>>,
    position: int,
    rows: nat,
    embeddings: nat,
    stride: nat,
)
    requires
        0 <= position,
        position + embedding_window_len(embeddings, stride) <= inputs.len(),
    ensures
        forall|t: int, q: int|
            0 <= t <= embeddings && 0 <= q < rows ==> #[trigger] stacked_taps(
                inputs.subrange(position, position + embedding_window_len(embeddings, stride)),
                rows,
                embeddings,
                stride,
            )[t * rows + q] == inputs[position + t * stride][q],
{
    let window = inputs.subrange(position, position + embedding_window_len(embeddings, stride));
    assert forall|t: int, q: int|
        0 <= t <= embeddings && 0 <= q < rows implies #[trigger] stacked_taps(
        window,
        rows,
        embeddings,
        stride,
    )[t * rows + q] == inputs[position + t * stride][q] by {
        lemma_stacked_tap(window, rows, embeddings, stride, t, q);
        assert(window[t * stride] == inputs[position + t * stride]);
    }
}

/// Stacks the taps of the window of `inputs` that starts at column `position`.
pub fn stack_window_taps<T: Copy>(
    inputs: &MatrixSlice<'_, T>,
    position: usize,
    embeddings: usize,
    stride: usize,
) -> (stacked: Vec<T>)
    requires
        position + embedding_window_len(embeddings as nat, stride as nat) <= inputs@.len(),
        embeddings < usize::MAX,
        inputs.rows() * (embeddings + 1) <= usize::MAX,
    ensures
        stacked@ == stacked_taps(
            inputs@.subrange(
                position as int,
                position + embedding_window_len(embeddings as nat, stride as nat),
            ),
            inputs.rows(),
            embeddings as nat,
            stride as nat,
        ),
{
    let rows: usize = inputs.nrows();
    let available: usize = inputs.ncols();
    let ghost window = inputs@.subrange(
        position as int,
        position + embedding_window_len(embeddings as nat, stride as nat),
    );
    let ghost expected = stacked_taps(window, rows as nat, embeddings as nat, stride as nat);
    let mut stacked: Vec<T> = Vec::with_capacity(rows * (embeddings + 1));
    let mut t: usize = 0;
    while t <= embeddings
        invariant
            t <= embeddings + 1,
            embeddings < usize::MAX,
            available == inputs@.len(),
            rows == inputs.rows(),
            position + embedding_window_len(embeddings as nat, stride as nat) <= inputs@.len(),
            rows * (embeddings + 1) <= usize::MAX,
            window == inputs@.subrange(
                position as int,
                position + embedding_window_len(embeddings as nat, stride as nat),
            ),
            expected == stacked_taps(window, rows as nat, embeddings as nat, stride as nat),
            stacked@.len() == t * rows,
            stacked@.len() <= expected.len(),
            forall|k: int| 0 <= k < stacked@.len() ==> stacked@[k] == expected[k],
        decreases embeddings + 1 - t,
    {
        proof {
            lemma_tap_in_window(embeddings as nat, stride as nat, t as int);
        }
        let tap: usize = position + t * stride;
        let mut q: usize = 0;
        while q < rows
            invariant
                q <= rows,
                t <= embeddings,
                rows == inputs.rows(),
                tap == position + t * stride,
                tap < inputs@.len(),
                0 <= t * stride < embedding_window_len(embeddings as nat, stride as nat),
                window == inputs@.subrange(
                    position as int,
                    position + embedding_window_len(embeddings as nat, stride as nat),
                ),
                position + embedding_window_len(embeddings as nat, stride as nat) <= inputs@.len(),
                expected == stacked_taps(window, rows as nat, embeddings as nat, stride as nat),
                stacked@.len() == t * rows + q,
                stacked@.len() <= expected.len(),
                forall|k: int| 0 <= k < stacked@.len() ==> stacked@[k] == expected[k],
            decreases rows - q,
        {
            proof {
                lemma_stacked_tap(
                    window,
                    rows as nat,
                    embeddings as nat,
                    stride as nat,
                    t as int,
                    q as int,
                );
                assert(window[t * stride] == inputs@[tap as int]);
            }
            stacked.push(inputs.get(q, tap));
            q = q + 1;
        }
        proof {
            assert(t * rows + rows == (t + 1) * rows) by (nonlinear_arith);
            assert((t + 1) * rows <= rows * (embeddings + 1)) by (nonlinear_arith)
                requires
                    0 <= t <= embeddings,
                    0 <= rows,
            ;
        }
        t = t + 1;
    }
    proof {
        assert((embeddings + 1) * rows == rows * (embeddings + 1)) by (nonlinear_arith);
        assert(stacked@ =~= expected);
    }
    stacked
}

/// A projection of windows of raw input columns onto vectors of a fixed
/// length.
///
/// `projects` says which vectors the projection may give for a window. A
/// projection that only selects entries gives exactly one; one that computes
/// in the scalar type's arithmetic says of its result what holds whatever the
/// arithmetic gave.
pub trait ReservoirInputProjection<T> {
    /// The number of rows of the input.
    spec fn input_len(&self) -> nat;

    /// The number of taps after the first column of a window.
    spec fn embedding_count(&self) -> nat;

    /// The number of consecutive input columns that one projection reads.
    spec fn window_len(&self) -> nat;

    /// The length of a projected vector.
    spec fn output_len(&self) -> nat;

    /// Whether `projected` is a projection of `window`.
    spec fn projects(&self, window: Seq<Seq<T>>, projected: Seq<T>) -> bool where
        T: nalgebra::RealField + Copy,
    ;

    fn output_dimensions(&self) -> (n: usize)
        ensures
            n == self.output_len(),
    ;

    fn input_dimension(&self) -> (n: usize)
        ensures
            n == self.input_len(),
    ;

    fn embeddings(&self) -> (n: usize)
        ensures
            n == self.embedding_count(),
    ;

    fn required_input_columns(&self) -> (n: usize)
        ensures
            n == self.window_len(),
            n >= 1,
    ;

    /// Projects one window.
    fn project(&self, input: MatrixSlice<'_, T>) -> (projected: Vec<T>) where
        T: nalgebra::RealField + Copy,

        requires
            input.rows() == self.input_len(),
            input@.len() == self.window_len(),
        ensures
            projected@.len() == self.output_len(),
            self.projects(input@, projected@),
    ;

    /// Projects one window into `target`.
    fn project_into(&self, input: MatrixSlice<'_, T>, target: &mut Vec<T>) where
        T: nalgebra::RealField + Copy,

        requires
            input.rows() == self.input_len(),
            input@.len() == self.window_len(),
            old(target)@.len() == self.output_len(),
        ensures
            final(target)@.len() == self.output_len(),
            self.projects(input@, final(target)@),
    ;

    /// Projects every window of `inputs`: column `k` of the result is a
    /// projection of the window that starts at column `k`.
    fn project_many(&self, inputs: MatrixSlice<'_, T>) -> (projected: Matrix<T>) where
        T: nalgebra::RealField + Copy,

        requires
            inputs.rows() == self.input_len(),
            inputs@.len() >= self.window_len(),
        ensures
            projected.rows() == self.output_len(),
            projected@.len() == inputs@.len() - self.window_len() + 1,
            forall|k: int|
                0 <= k < projected@.len() ==> self.projects(
                    inputs@.subrange(k, k + self.window_len()),
                    #[trigger] projected@[k],
                ),
    ;

    /// Projects the first windows of `inputs`, as many as `targets` has
    /// columns, into those columns.
    fn project_many_into(&self, inputs: MatrixSlice<'_, T>, targets: &mut Matrix<T>) where
        T: nalgebra::RealField + Copy,

        requires
            inputs.rows() == self.input_len(),
            old(targets).rows() == self.output_len(),
            old(targets)@.len() + self.window_len() <= inputs@.len() + 1,
        ensures
            final(targets).rows() == self.output_len(),
            final(targets)@.len() == old(targets)@.len(),
            forall|k: int|
                0 <= k < final(targets)@.len() ==> self.projects(
                    inputs@.subrange(k, k + self.window_len()),
                    #[trigger] final(targets)@[k],
                ),
    ;
}

/// The projection gives at most one vector for a window.
pub open spec fn projects_one<T: nalgebra::RealField + Copy, I: ReservoirInputProjection<T>>(
    projection: I,
) -> bool {
    forall|window: Seq<Seq<T>>, a: Seq<T>, b: Seq<T>|
        #[trigger] projection.projects(window, a) && #[trigger] projection.projects(window, b)
            ==> a == b
}

impl<T, I: ReservoirInputProjection<T>> ReservoirInputProjection<T> for Box<I> {
    open spec fn input_len(&self) -> nat {
        (**self).input_len()
    }

    open spec fn embedding_count(&self) -> nat {
        (**self).embedding_count()
    }

    open spec fn window_len(&self) -> nat {
        (**self).window_len()
    }

    open spec fn output_len(&self) -> nat {
        (**self).output_len()
    }

    open spec fn projects(&self, window: Seq<Seq<T>>, projected: Seq<T>) -> bool where
        T: nalgebra::RealField + Copy,
    {
        (**self).projects(window, projected)
    }

    fn output_dimensions(&self) -> (n: usize) {
        (**self).output_dimensions()
    }

    fn input_dimension(&self) -> (n: usize) {
        (**self).input_dimension()
    }

    fn embeddings(&self) -> (n: usize) {
        (**self).embeddings()
    }

    fn required_input_columns(&self) -> (n: usize) {
        (**self).required_input_columns()
    }

    fn project(&self, input: MatrixSlice<'_, T>) -> (projected: Vec<T>) where
        T: nalgebra::RealField + Copy,
    {
        (**self).project(input)
    }

    fn project_into(&self, input: MatrixSlice<'_, T>, target: &mut Vec<T>) where
        T: nalgebra::RealField + Copy,
    {
        (**self).project_into(input, target);
    }

    fn project_many(&self, inputs: MatrixSlice<'_, T>) -> (projected: Matrix<T>) where
        T: nalgebra::RealField + Copy,
    {
        (**self).project_many(inputs)
    }

    fn project_many_into(&self, inputs: MatrixSlice<'_, T>, targets: &mut Matrix<T>) where
        T: nalgebra::RealField + Copy,
    {
        (**self).project_many_into(inputs, targets);
    }
}

impl<T> ReservoirInputProjection<T> for Box<dyn ReservoirInputProjection<T>> {
    open spec fn input_len(&self) -> nat {
        (**self).input_len()
    }

    open spec fn embedding_count(&self) -> nat {
        (**self).embedding_count()
    }

    open spec fn window_len(&self) -> nat {
        (**self).window_len()
    }

    open spec fn output_len(&self) -> nat {
        (**self).output_len()
    }

    open spec fn projects(&self, window: Seq<Seq<T>>, projected: Seq<T>) -> bool where
        T: nalgebra::RealField + Copy,
    {
        (**self).projects(window, projected)
    }

    fn output_dimensions(&self) -> (n: usize) {
        (**self).output_dimensions()
    }

    fn input_dimension(&self) -> (n: usize) {
        (**self).input_dimension()
    }

    fn embeddings(&self) -> (n: usize) {
        (**self).embeddings()
    }

    fn required_input_columns(&self) -> (n: usize) {
        (**self).required_input_columns()
    }

    fn project(&self, input: MatrixSlice<'_, T>) -> (projected: Vec<T>) where
        T: nalgebra::RealField + Copy,
    {
        (**self).project(input)
    }

    fn project_into(&self, input: MatrixSlice<'_, T>, target: &mut Vec<T>) where
        T: nalgebra::RealField + Copy,
    {
        (**self).project_into(input, target);
    }

    fn project_many(&self, inputs: MatrixSlice<'_, T>) -> (projected: Matrix<T>) where
        T: nalgebra::RealField + Copy,
    {
        (**self).project_many(inputs)
    }

    fn project_many_into(&self, inputs: MatrixSlice<'_, T>, targets: &mut Matrix<T>) where
        T: nalgebra::RealField + Copy,
    {
        (**self).project_many_into(inputs, targets);
    }
}

} // verus!
