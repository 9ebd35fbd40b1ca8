//! Echo state networks: reservoirs whose time evolution multiplies the state
//! by a sparse adjacency matrix.

use vstd::prelude::*;

use crate::activation_function::ActiviationFunction;
use crate::linear_algebra::{norm, normalized};
use crate::matrix::Matrix;
use crate::random::{sample_symmetric_inclusive, sample_unit_inclusive};
use crate::scalar::{at_most, divided, is_scalar_of, scalar_of, zero_value};
use crate::sparse::SparseMatrix;
use crate::time_evolution::ReservoirTimeEvolution;

pub mod sparse_discrete_echo_state_network;
pub mod sparse_leaky_integrator_echo_state_network;

pub use sparse_discrete_echo_state_network::{
    discrete_evolves, SparseDiscreteEchoStateNetwork,
};
pub use sparse_leaky_integrator_echo_state_network::{
    leaky_evolves, SparseLeakyIntegratorEchoStateNetwork,
};

verus! {

/// Every index below `size` may be activated with every value.
pub open spec fn admits_all<T, A: ActiviationFunction<T>>(activation: A, size: nat) -> bool {
    forall|index: usize, value: T| index < size ==> #[trigger] activation.admits(index, value)
}

/// `both` says whether the scalar type gives a scalar for the count `degree`
/// and one for the count `others`.
pub open spec fn has_scalars_for_counts<T: num_traits::FromPrimitive>(
    degree: usize,
    others: usize,
    both: bool,
) -> bool {
    exists|first: Option<T>, second: Option<T>|
        {
            &&& #[trigger] is_scalar_of(degree, first)
            &&& #[trigger] is_scalar_of(others, second)
            &&& both == (first.is_some() && second.is_some())
        }
}

/// Builds echo state networks from an adjacency matrix.
#[derive(Debug)]
pub struct EchoStateNetworkBuilder<T> {
    spectral_radius: Option<T>,
    adjacency_matrix: SparseMatrix<T>,
}

impl<T: Copy> Clone for EchoStateNetworkBuilder<T> {
    fn clone(&self) -> (copy: Self)
        ensures
            copy.adjacency().rows() == self.adjacency().rows(),
            copy.adjacency().cols() == self.adjacency().cols(),
            copy.adjacency().offsets() == self.adjacency().offsets(),
            copy.adjacency().indices() == self.adjacency().indices(),
            copy.adjacency().stored() == self.adjacency().stored(),
            copy.measured_radius() == self.measured_radius(),
    {
        Self {
            spectral_radius: self.spectral_radius,
            adjacency_matrix: self.adjacency_matrix.clone(),
        }
    }
}

impl<T> EchoStateNetworkBuilder<T> {
    /// The adjacency matrix.
    pub closed spec fn adjacency(&self) -> SparseMatrix<T> {
        self.adjacency_matrix
    }

    /// The spectral radius that was measured before the adjacency matrix was
    /// scaled, if it was.
    pub closed spec fn measured_radius(&self) -> Option<T> {
        self.spectral_radius
    }

    /// The adjacency matrix is square.
    pub open spec fn well_formed(&self) -> bool {
        self.adjacency().rows() == self.adjacency().cols()
    }
}

impl<T: nalgebra::RealField + Copy> EchoStateNetworkBuilder<T> {
    /// The builder of networks with the adjacency matrix `adjacency`, of
    /// which the entries that the scalar type does not take for zero are
    /// kept.
    pub fn from_adjacency(adjacency: &Matrix<T>) -> (builder: Self)
        requires
            adjacency.rows() == adjacency@.len(),
        ensures
            builder.well_formed(),
            builder.adjacency().rows() == adjacency.rows(),
            builder.measured_radius().is_none(),
    {
        Self { adjacency_matrix: SparseMatrix::from_dense(adjacency), spectral_radius: None }
    }

    /// The network that applies `a` to every entry of the adjacency matrix
    /// times the state plus the input.
    pub fn build_sparse_discrete_network<A: ActiviationFunction<T>>(self, a: A) -> (network:
        SparseDiscreteEchoStateNetwork<T, A>)
        requires
            self.well_formed(),
            admits_all(a, self.adjacency().rows()),
        ensures
            network.adjacency() == self.adjacency(),
            network.activation() == a,
            network.input_len() == self.adjacency().rows(),
            network.output_len() == self.adjacency().rows(),
            forall|before: Seq<T>, input: Seq<T>, after: Seq<T>| #[trigger]
                network.evolves(before, input, after) == discrete_evolves(
                    self.adjacency(),
                    a,
                    before,
                    input,
                    after,
                ),
    {
        SparseDiscreteEchoStateNetwork::from_parts(self.adjacency_matrix, a)
    }

    /// The network that blends every entry of the adjacency matrix times the
    /// state plus the input with what `a` makes of it, with the weight
    /// `leaky_alpha` on the latter.
    pub fn build_sparse_leaky_integrator_network<A: ActiviationFunction<T>>(
        self,
        leaky_alpha: T,
        a: A,
    ) -> (network: SparseLeakyIntegratorEchoStateNetwork<T, A>)
        requires
            self.well_formed(),
            admits_all(a, self.adjacency().rows()),
        ensures
            network.adjacency() == self.adjacency(),
            network.activation() == a,
            network.alpha() == leaky_alpha,
            network.input_len() == self.adjacency().rows(),
            network.output_len() == self.adjacency().rows(),
            forall|before: Seq<T>, input: Seq<T>, after: Seq<T>| #[trigger]
                network.evolves(before, input, after) == leaky_evolves(
                    self.adjacency(),
                    leaky_alpha,
                    a,
                    before,
                    input,
                    after,
                ),
    {
        SparseLeakyIntegratorEchoStateNetwork::from_parts(leaky_alpha, self.adjacency_matrix, a)
    }
}

impl<
    T: nalgebra::RealField + Copy + rand::distributions::uniform::SampleUniform,
> EchoStateNetworkBuilder<T> {
    /// The builder of networks of `size` nodes with a random adjacency
    /// matrix: each entry off the diagonal is a link where a scalar drawn at
    /// random between 0 and 1 is at most `link_probability`, and a link has a
    /// weight drawn at random between -1 and 1.
    pub fn random_with_link_probability(size: usize, link_probability: T) -> (builder: Self)
        requires
            size * size <= usize::MAX,
        ensures
            builder.well_formed(),
            builder.adjacency().rows() == size,
            builder.measured_radius().is_none(),
    {
        let mut adjacency_matrix = Matrix::filled(size, size, zero_value());
        let mut i: usize = 0;
        while i < size
            invariant
                i <= size,
                adjacency_matrix.rows() == size,
                adjacency_matrix@.len() == size,
            decreases size - i,
        {
            let mut j: usize = 0;
            while j < size
                invariant
                    i < size,
                    j <= size,
                    adjacency_matrix.rows() == size,
                    adjacency_matrix@.len() == size,
                decreases size - j,
            {
                if i != j {
                    let draw: T = sample_unit_inclusive();
                    if at_most(&draw, &link_probability) {
                        adjacency_matrix.set(i, j, sample_symmetric_inclusive());
                    }
                }
                j = j + 1;
            }
            i = i + 1;
        }
        Self::from_adjacency(&adjacency_matrix)
    }

    /// The builder for the two counts as scalars: the random builder with the
    /// link probability `degree / others`, or `None` where one of the two has
    /// no scalar.
    pub fn random_for_counts(size: usize, degree: Option<T>, others: Option<T>) -> (builder:
        Option<Self>)
        requires
            size * size <= usize::MAX,
        ensures
            builder.is_some() == (degree.is_some() && others.is_some()),
            builder matches Some(b) ==> {
                &&& b.well_formed()
                &&& b.adjacency().rows() == size
                &&& b.measured_radius().is_none()
            },
    {
        match (degree, others) {
            (Some(degree), Some(others)) => Some(
                Self::random_with_link_probability(size, divided(degree, others)),
            ),
            _ => None,
        }
    }

    /// The builder of networks of `size` nodes with a random adjacency
    /// matrix: each entry off the diagonal is a link with the probability
    /// `average_degree / (size - 1)`, and a link has a weight drawn at random
    /// between -1 and 1. Gives a builder where the scalar type has a value
    /// for `average_degree` and one for `size - 1`, and `None` where it lacks
    /// one of the two.
    pub fn random(size: usize, average_degree: usize) -> (builder: Option<Self>)
        requires
            size >= 1,
            size * size <= usize::MAX,
        ensures
            has_scalars_for_counts::<T>(average_degree, (size - 1) as usize, builder.is_some()),
            builder matches Some(b) ==> {
                &&& b.well_formed()
                &&& b.adjacency().rows() == size
                &&& b.measured_radius().is_none()
            },
    {
        let degree: Option<T> = scalar_of(average_degree);
        let others: Option<T> = scalar_of(size - 1);
        proof {
            assert(is_scalar_of(average_degree, degree) && is_scalar_of(
                (size - 1) as usize,
                others,
            ));
        }
        Self::random_for_counts(size, degree, others)
    }

    /// Scales the adjacency matrix to the spectral radius `radius`: measures
    /// its spectral radius by 50 steps of power iteration from a random
    /// vector and multiplies every entry by `radius` over what was measured.
    pub fn spectral_radius(&mut self, radius: T) -> (builder: &mut Self)
        requires
            old(self).well_formed(),
        ensures
            builder.well_formed(),
            builder.adjacency().rows() == old(self).adjacency().rows(),
            builder.adjacency().offsets() == old(self).adjacency().offsets(),
            builder.adjacency().indices() == old(self).adjacency().indices(),
            builder.measured_radius().is_some(),
            *final(self) == *final(builder),
    {
        // Power iteration:
        let size: usize = self.adjacency_matrix.nrows();
        let mut random_vector: Vec<T> = Vec::with_capacity(size);
        while random_vector.len() < size
            invariant
                random_vector@.len() <= size,
            decreases size - random_vector@.len(),
        {
            random_vector.push(sample_symmetric_inclusive());
        }

        let mut round: usize = 0;
        while round < 50
            invariant
                round <= 50,
                random_vector@.len() == size,
                size == self.adjacency_matrix.rows(),
                self.adjacency_matrix.rows() == self.adjacency_matrix.cols(),
                *self == *old(self),
            decreases 50 - round,
        {
            random_vector = normalized(&random_vector);
            random_vector = self.adjacency_matrix.times_vector(&random_vector);
            round = round + 1;
        }
        let spectral_radius: T = norm(&random_vector);

        self.adjacency_matrix.scale(divided(radius, spectral_radius));
        self.spectral_radius = Some(spectral_radius);
        self
    }
}

} // verus!
