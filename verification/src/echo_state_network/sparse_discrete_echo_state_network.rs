//! The echo state network that replaces its state at every step.

use vstd::prelude::*;

use crate::activation_function::ActiviationFunction;
use crate::echo_state_network::admits_all;
use crate::scalar::{is_sum, plus};
use crate::sparse::{is_sparse_product, SparseMatrix};
use crate::time_evolution::ReservoirTimeEvolution;

verus! {

/// Entry `i` of `after` is what the activation may make of entry `i` of
/// `combined`.
pub open spec fn activated<T, A: ActiviationFunction<T>>(
    activation: A,
    combined: Seq<T>,
    after: Seq<T>,
) -> bool {
    &&& after.len() == combined.len()
    &&& forall|i: int|
        0 <= i < combined.len() ==> activation.activates(
            i as usize,
            combined[i],
            #[trigger] after[i],
        )
}

/// Every entry of `sum` is a value that the scalar type's `+` gives for the
/// entries of `left` and `right` at its place.
pub open spec fn is_entrywise_sum<T: nalgebra::RealField + Copy>(
    left: Seq<T>,
    right: Seq<T>,
    sum: Seq<T>,
) -> bool {
    &&& sum.len() == left.len()
    &&& forall|i: int| 0 <= i < left.len() ==> is_sum(left[i], right[i], #[trigger] sum[i])
}

/// A step of the discrete network may lead from `before` under `input` to
/// `after`: a product that `nalgebra_sparse` gives for the adjacency matrix
/// and `before`, plus `input` entry by entry, is activated entry by entry.
pub open spec fn discrete_evolves<T: nalgebra::RealField + Copy, A: ActiviationFunction<T>>(
    adjacency: SparseMatrix<T>,
    activation: A,
    before: Seq<T>,
    input: Seq<T>,
    after: Seq<T>,
) -> bool {
    exists|driven: Seq<T>, combined: Seq<T>|
        {
            &&& is_sparse_product(adjacency, before, driven)
            &&& #[trigger] is_entrywise_sum(driven, input, combined)
            &&& activated(activation, combined, after)
        }
}

/// The sum of `left` and `right`, entry by entry, in the scalar type.
pub(crate) fn sum_of<T: nalgebra::RealField + Copy>(left: &Vec<T>, right: &Vec<T>) -> (sum: Vec<T>)
    requires
        left@.len() == right@.len(),
    ensures
        is_entrywise_sum(left@, right@, sum@),
{
    let mut sum: Vec<T> = Vec::with_capacity(left.len());
    let mut i: usize = 0;
    while i < left.len()
        invariant
            i <= left@.len(),
            left@.len() == right@.len(),
            sum@.len() == i,
            forall|q: int| 0 <= q < i ==> is_sum(left@[q], right@[q], #[trigger] sum@[q]),
        decreases left@.len() - i,
    {
        sum.push(plus(left[i], right[i]));
        i = i + 1;
    }
    sum
}

/// An echo state network in discrete time: the next state is the activation
/// of the adjacency matrix times the state plus the input.
#[derive(Debug)]
pub struct SparseDiscreteEchoStateNetwork<T, A: ActiviationFunction<T>> {
    adjacency_matrix: SparseMatrix<T>,
    activation_function: A,
}

impl<T, A: ActiviationFunction<T>> SparseDiscreteEchoStateNetwork<T, A> {
    #[verifier::type_invariant]
    pub closed spec fn well_formed(&self) -> bool {
        &&& self.adjacency_matrix.rows() == self.adjacency_matrix.cols()
        &&& admits_all(self.activation_function, self.adjacency_matrix.rows())
    }

    /// The adjacency matrix.
    pub closed spec fn adjacency(&self) -> SparseMatrix<T> {
        self.adjacency_matrix
    }

    /// The activation function.
    pub closed spec fn activation(&self) -> A {
        self.activation_function
    }

    /// The network of `adjacency_matrix` and `activation_function`.
    pub(crate) fn from_parts(adjacency_matrix: SparseMatrix<T>, activation_function: A) -> (network:
        Self)
        requires
            adjacency_matrix.rows() == adjacency_matrix.cols(),
            admits_all(activation_function, adjacency_matrix.rows()),
        ensures
            network.adjacency() == adjacency_matrix,
            network.activation() == activation_function,
    {
        Self { adjacency_matrix, activation_function }
    }
}

impl<T, A: ActiviationFunction<T>> ReservoirTimeEvolution<T> for SparseDiscreteEchoStateNetwork<
    T,
    A,
> {
    open spec fn input_len(&self) -> nat {
        self.adjacency().rows()
    }

    open spec fn output_len(&self) -> nat {
        self.adjacency().rows()
    }

    /// Every entry of the next state is the activation of the entry at its
    /// place of the adjacency matrix times the state plus the input.
    open spec fn evolves(&self, before: Seq<T>, input: Seq<T>, after: Seq<T>) -> bool where
        T: nalgebra::RealField + Copy,
    {
        discrete_evolves(self.adjacency(), self.activation(), before, input, after)
    }

    fn input_dimension(&self) -> (n: usize) {
        self.adjacency_matrix.nrows()
    }

    fn output_dimension(&self) -> (n: usize) {
        self.adjacency_matrix.nrows()
    }

    fn time_evolution(&self, state: &mut Vec<T>, input: &Vec<T>) where
        T: nalgebra::RealField + Copy,
    {
        proof {
            use_type_invariant(self);
        }
        let driven = self.adjacency_matrix.times_vector(state);
        let combined_state = sum_of(&driven, input);
        let size: usize = state.len();
        let mut index: usize = 0;
        while index < size
            invariant
                index <= size,
                size == state@.len(),
                size == combined_state@.len(),
                admits_all(self.activation_function, size as nat),
                forall|i: int|
                    0 <= i < index ==> self.activation_function.activates(
                        i as usize,
                        combined_state@[i],
                        #[trigger] state@[i],
                    ),
            decreases size - index,
        {
            let e: T = combined_state[index];
            state[index] = self.activation_function.invoke(index, e);
            index = index + 1;
        }
        proof {
            assert(activated(self.activation(), combined_state@, state@));
            assert(is_entrywise_sum(driven@, input@, combined_state@));
        }
    }
}

} // verus!
