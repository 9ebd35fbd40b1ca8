//! State measurements: the features that are read off a reservoir state.

use vstd::prelude::*;

use crate::matrix::{Matrix, MatrixSlice};

pub mod constant_extension_state_measurement;
pub mod default_state_measurement;
pub mod extended_lu_state_measurement;
pub mod lu_state_measurement;

pub use constant_extension_state_measurement::ConstantExtensionStateMeasurement;
pub use default_state_measurement::DefaultStateMeasurement;
pub use extended_lu_state_measurement::ExtendedLuStateMeasurement;
pub use lu_state_measurement::LuStateMeasurement;
verus! {

/// A map from reservoir states of `state_len()` entries to measurement
/// vectors of `output_len()` entries.
///
/// `measures` says which vectors the measurement may give for a state.
pub trait ReservoirStateMeasurement<T> {
    /// The length of the states that are measured.
    spec fn state_len(&self) -> nat;

    /// The length of a measurement.
    spec fn output_len(&self) -> nat;

    /// Whether `measured` is a measurement of `state`.
    spec fn measures(&self, state: Seq<T>, measured: Seq<T>) -> bool where
        T: nalgebra::RealField + Copy,
    ;

    fn output_dimension(&self) -> (n: usize)
        ensures
            n == self.output_len(),
    ;

    /// Measures one state.
    fn measure(&self, state: &Vec<T>) -> (measured: Vec<T>) where
        T: nalgebra::RealField + Copy,

        requires
            state@.len() == self.state_len(),
        ensures
            measured@.len() == self.output_len(),
            self.measures(state@, measured@),
    ;

    /// Measures one state into `target`.
    fn measure_into(&self, state: &Vec<T>, target: &mut Vec<T>) where
        T: nalgebra::RealField + Copy,

        requires
            state@.len() == self.state_len(),
            old(target)@.len() == self.output_len(),
        ensures
            final(target)@.len() == self.output_len(),
            self.measures(state@, final(target)@),
    ;

    /// Measures every column of `states`.
    fn measure_many(&self, states: MatrixSlice<'_, T>) -> (measured: Matrix<T>) where
        T: nalgebra::RealField + Copy,

        requires
            states.rows() == self.state_len(),
        ensures
            measured.rows() == self.output_len(),
            measured@.len() == states@.len(),
            forall|k: int|
                0 <= k < states@.len() ==> self.measures(states@[k], #[trigger] measured@[k]),
    ;

    /// Measures every column of `states` into the same column of `targets`.
    fn measure_many_into(&self, states: MatrixSlice<'_, T>, targets: &mut Matrix<T>) where
        T: nalgebra::RealField + Copy,

        requires
            states.rows() == self.state_len(),
            old(targets).rows() == self.output_len(),
            old(targets)@.len() == states@.len(),
        ensures
            final(targets).rows() == self.output_len(),
            final(targets)@.len() == states@.len(),
            forall|k: int|
                0 <= k < states@.len() ==> self.measures(
                    states@[k],
                    #[trigger] final(targets)@[k],
                ),
    ;
}

/// The measurement gives at most one vector for a state.
pub open spec fn measures_one<T: nalgebra::RealField + Copy, M: ReservoirStateMeasurement<T>>(
    measurement: M,
) -> bool {
    forall|state: Seq<T>, a: Seq<T>, b: Seq<T>|
        #[trigger] measurement.measures(state, a) && #[trigger] measurement.measures(state, b)
            ==> a == b
}

impl<T, M: ReservoirStateMeasurement<T>> ReservoirStateMeasurement<T> for Box<M> {
    open spec fn state_len(&self) -> nat {
        (**self).state_len()
    }

    open spec fn output_len(&self) -> nat {
        (**self).output_len()
    }

    open spec fn measures(&self, state: Seq<T>, measured: Seq<T>) -> bool where
        T: nalgebra::RealField + Copy,
    {
        (**self).measures(state, measured)
    }

    fn output_dimension(&self) -> (n: usize) {
        (**self).output_dimension()
    }

    fn measure(&self, state: &Vec<T>) -> (measured: Vec<T>) where
        T: nalgebra::RealField + Copy,
    {
        (**self).measure(state)
    }

    fn measure_into(&self, state: &Vec<T>, target: &mut Vec<T>) where
        T: nalgebra::RealField + Copy,
    {
        (**self).measure_into(state, target);
    }

    fn measure_many(&self, states: MatrixSlice<'_, T>) -> (measured: Matrix<T>) where
        T: nalgebra::RealField + Copy,
    {
        (**self).measure_many(states)
    }

    fn measure_many_into(&self, states: MatrixSlice<'_, T>, targets: &mut Matrix<T>) where
        T: nalgebra::RealField + Copy,
    {
        (**self).measure_many_into(states, targets);
    }
}

impl<T> ReservoirStateMeasurement<T> for Box<dyn ReservoirStateMeasurement<T>> {
    open spec fn state_len(&self) -> nat {
        (**self).state_len()
    }

    open spec fn output_len(&self) -> nat {
        (**self).output_len()
    }

    open spec fn measures(&self, state: Seq<T>, measured: Seq<T>) -> bool where
        T: nalgebra::RealField + Copy,
    {
        (**self).measures(state, measured)
    }

    fn output_dimension(&self) -> (n: usize) {
        (**self).output_dimension()
    }

    fn measure(&self, state: &Vec<T>) -> (measured: Vec<T>) where
        T: nalgebra::RealField + Copy,
    {
        (**self).measure(state)
    }

    fn measure_into(&self, state: &Vec<T>, target: &mut Vec<T>) where
        T: nalgebra::RealField + Copy,
    {
        (**self).measure_into(state, target);
    }

    fn measure_many(&self, states: MatrixSlice<'_, T>) -> (measured: Matrix<T>) where
        T: nalgebra::RealField + Copy,
    {
        (**self).measure_many(states)
    }

    fn measure_many_into(&self, states: MatrixSlice<'_, T>, targets: &mut Matrix<T>) where
        T: nalgebra::RealField + Copy,
    {
        (**self).measure_many_into(states, targets);
    }
}

} // verus!
