//! The echo state network that blends its state with the activation at every
//! step.

use vstd::prelude::*;

use crate::activation_function::ActiviationFunction;
use crate::echo_state_network::admits_all;
use crate::echo_state_network::sparse_discrete_echo_state_network::{is_entrywise_sum, sum_of};
use crate::scalar::{
    is_difference, is_one, is_product, is_sum, minus, one_value, plus, times,
};
use crate::sparse::{is_sparse_product, SparseMatrix};
use crate::time_evolution::ReservoirTimeEvolution;

verus! {

/// `blended` is what a leaky step makes of the entry `driven` at `index`: a
/// sum of `(one - alpha) * driven` and `alpha` times what the activation
/// makes of `driven`, with the one, the difference, the products and the sum
/// as the scalar type gives them.
pub open spec fn is_leaky_blend<T: nalgebra::RealField + Copy, A: ActiviationFunction<T>>(
    alpha: T,
    activation: A,
    index: usize,
    driven: T,
    blended: T,
) -> bool {
    exists|one: T, rest: T, kept: T, activated: T, fired: T|
        {
            &&& is_one(one)
            &&& #[trigger] is_difference(one, alpha, rest)
            &&& #[trigger] is_product(rest, driven, kept)
            &&& activation.activates(index, driven, activated)
            &&& #[trigger] is_product(alpha, activated, fired)
            &&& is_sum(kept, fired, blended)
        }
}

/// Every entry of `after` is a leaky blend of the entry of `combined` at its
/// place.
pub open spec fn is_leaky_step<T: nalgebra::RealField + Copy, A: ActiviationFunction<T>>(
    alpha: T,
    activation: A,
    combined: Seq<T>,
    after: Seq<T>,
) -> bool {
    &&& after.len() == combined.len()
    &&& forall|i: int|
        0 <= i < combined.len() ==> is_leaky_blend(
            alpha,
            activation,
            i as usize,
            combined[i],
            #[trigger] after[i],
        )
}

/// A step of the leaky network may lead from `before` under `input` to
/// `after`: a product that `nalgebra_sparse` gives for the adjacency matrix
/// and `before`, plus `input` entry by entry, is blended entry by entry.
pub open spec fn leaky_evolves<T: nalgebra::RealField + Copy, A: ActiviationFunction<T>>(
    adjacency: SparseMatrix<T>,
    alpha: T,
    activation: A,
    before: Seq<T>,
    input: Seq<T>,
    after: Seq<T>,
) -> bool {
    exists|driven: Seq<T>, combined: Seq<T>|
        {
            &&& is_sparse_product(adjacency, before, driven)
            &&& #[trigger] is_entrywise_sum(driven, input, combined)
            &&& is_leaky_step(alpha, activation, combined, after)
        }
}

/// A leaky-integrator echo state network: with `e` an entry of the adjacency
/// matrix times the state plus the input, the next entry is
/// `(1 - leaky_alpha) * e + leaky_alpha * activation(e)`.
#[derive(Debug)]
pub struct SparseLeakyIntegratorEchoStateNetwork<T, A: ActiviationFunction<T>> {
    leaky_alpha: T,
    adjacency_matrix: SparseMatrix<T>,
    activation_function: A,
}

impl<T, A: ActiviationFunction<T>> SparseLeakyIntegratorEchoStateNetwork<T, A> {
    #[verifier::type_invariant]
    pub closed spec fn well_formed(&self) -> bool {
        &&& self.adjacency_matrix.rows() == self.adjacency_matrix.cols()
        &&& admits_all(self.activation_function, self.adjacency_matrix.rows())
    }

    /// The adjacency matrix.
    pub closed spec fn adjacency(&self) -> SparseMatrix<T> {
        self.adjacency_matrix
    }

    /// The activation function.
    pub closed spec fn activation(&self) -> A {
        self.activation_function
    }

    /// The weight of the activation in the blend.
    pub closed spec fn alpha(&self) -> T {
        self.leaky_alpha
    }

    /// The network of `leaky_alpha`, `adjacency_matrix` and
    /// `activation_function`.
    pub(crate) fn from_parts(
        leaky_alpha: T,
        adjacency_matrix: SparseMatrix<T>,
        activation_function: A,
    ) -> (network: Self)
        requires
            adjacency_matrix.rows() == adjacency_matrix.cols(),
            admits_all(activation_function, adjacency_matrix.rows()),
        ensures
            network.adjacency() == adjacency_matrix,
            network.activation() == activation_function,
            network.alpha() == leaky_alpha,
    {
        Self { leaky_alpha, adjacency_matrix, activation_function }
    }
}

impl<T, A: ActiviationFunction<T>> ReservoirTimeEvolution<
    T,
> for SparseLeakyIntegratorEchoStateNetwork<T, A> {
    open spec fn input_len(&self) -> nat {
        self.adjacency().rows()
    }

    open spec fn output_len(&self) -> nat {
        self.adjacency().rows()
    }

    /// The next state is a leaky blend, entry by entry, of the adjacency
    /// matrix times the state plus the input.
    open spec fn evolves(&self, before: Seq<T>, input: Seq<T>, after: Seq<T>) -> bool where
        T: nalgebra::RealField + Copy,
    {
        leaky_evolves(self.adjacency(), self.alpha(), self.activation(), before, input, after)
    }

    fn input_dimension(&self) -> (n: usize) {
        self.adjacency_matrix.nrows()
    }

    fn output_dimension(&self) -> (n: usize) {
        self.adjacency_matrix.nrows()
    }

    fn time_evolution(&self, state: &mut Vec<T>, input: &Vec<T>) where
        T: nalgebra::RealField + Copy,
    {
        proof {
            use_type_invariant(self);
        }
        let driven = self.adjacency_matrix.times_vector(state);
        let combined_state = sum_of(&driven, input);
        let size: usize = state.len();
        let mut index: usize = 0;
        while index < size
            invariant
                index <= size,
                size == state@.len(),
                size == combined_state@.len(),
                admits_all(self.activation_function, size as nat),
                forall|i: int|
                    0 <= i < index ==> is_leaky_blend(
                        self.leaky_alpha,
                        self.activation_function,
                        i as usize,
                        combined_state@[i],
                        #[trigger] state@[i],
                    ),
            decreases size - index,
        {
            let e: T = combined_state[index];
            let one: T = one_value();
            let rest: T = minus(one, self.leaky_alpha);
            let kept: T = times(rest, e);
            let activated: T = self.activation_function.invoke(index, e);
            let fired: T = times(self.leaky_alpha, activated);
            let blended: T = plus(kept, fired);
            proof {
                assert(is_difference(one, self.leaky_alpha, rest) && is_product(rest, e, kept)
                    && is_product(self.leaky_alpha, activated, fired));
                assert(is_leaky_blend(
                    self.leaky_alpha,
                    self.activation_function,
                    index,
                    e,
                    blended,
                ));
            }
            state[index] = blended;
            index = index + 1;
        }
        proof {
            assert(is_leaky_step(
                self.leaky_alpha,
                self.activation_function,
                combined_state@,
                state@,
            ));
            assert(is_entrywise_sum(driven@, input@, combined_state@));
        }
    }
}

} // verus!
