//! The dynamics of a reservoir computer: those of a reservoir with a
//! measurement and a readout, and no state of their own.

use vstd::prelude::*;

use crate::input_projection::ReservoirInputProjection;
use crate::matrix::{Matrix, MatrixSlice};
use crate::output_projection::ReservoirStateProjection;
use crate::reservoir::reservoir_dynamics::ReservoirDynamics;
use crate::reservoir::runs::predicts;
use crate::state_measurement::ReservoirStateMeasurement;
use crate::time_evolution::ReservoirTimeEvolution;

verus! {

/// The dynamics of a reservoir together with the measurement of its state
/// and the readout of the measurement.
#[derive(Debug)]
pub struct ReservoirComputerDynamics<
    T,
    I: ReservoirInputProjection<T>,
    E: ReservoirTimeEvolution<T>,
    M: ReservoirStateMeasurement<T>,
    P: ReservoirStateProjection<T>,
> {
    reservoir_dynamics: ReservoirDynamics<T, I, E>,
    reservoir_state_measurement: M,
    reservoir_state_projection: P,
}

impl<
    T,
    I: ReservoirInputProjection<T> + Clone,
    E: ReservoirTimeEvolution<T> + Clone,
    M: ReservoirStateMeasurement<T> + Clone,
    P: ReservoirStateProjection<T> + Clone,
> Clone for ReservoirComputerDynamics<T, I, E, M, P> {
    fn clone(&self) -> (copy: Self) {
        Self {
            reservoir_dynamics: self.reservoir_dynamics.clone(),
            reservoir_state_measurement: self.reservoir_state_measurement.clone(),
            reservoir_state_projection: self.reservoir_state_projection.clone(),
        }
    }
}

impl<
    T: nalgebra::RealField + Copy,
    I: ReservoirInputProjection<T>,
    E: ReservoirTimeEvolution<T>,
    M: ReservoirStateMeasurement<T>,
    P: ReservoirStateProjection<T>,
> ReservoirComputerDynamics<T, I, E, M, P> {
    /// The dynamics of the reservoir.
    pub closed spec fn dynamics(&self) -> ReservoirDynamics<T, I, E> {
        self.reservoir_dynamics
    }

    /// The measurement.
    pub closed spec fn measurement(&self) -> M {
        self.reservoir_state_measurement
    }

    /// The readout.
    pub closed spec fn readout(&self) -> P {
        self.reservoir_state_projection
    }

    /// The dynamics are well formed, the measurement takes their states, and
    /// the readout takes the measurements and gives what the input
    /// projection takes.
    pub open spec fn well_formed(&self) -> bool {
        &&& self.dynamics().well_formed()
        &&& self.measurement().state_len() == self.dynamics().evolution().input_len()
        &&& self.readout().input_len() == self.measurement().output_len()
        &&& self.readout().output_len() == self.dynamics().projection().input_len()
    }

    /// The dynamics of `reservoir_dynamics`, `measurement` and `projection`.
    pub fn new(
        reservoir_dynamics: ReservoirDynamics<T, I, E>,
        measurement: M,
        projection: P,
    ) -> (dynamics: Self)
        ensures
            dynamics.dynamics() == reservoir_dynamics,
            dynamics.measurement() == measurement,
            dynamics.readout() == projection,
    {
        Self {
            reservoir_dynamics,
            reservoir_state_measurement: measurement,
            reservoir_state_projection: projection,
        }
    }

    pub fn into_parts(self) -> (parts: (I, E, M, P))
        ensures
            parts.0 == self.dynamics().projection(),
            parts.1 == self.dynamics().evolution(),
            parts.2 == self.measurement(),
            parts.3 == self.readout(),
    {
        let (i, e) = self.reservoir_dynamics.into_parts();
        (i, e, self.reservoir_state_measurement, self.reservoir_state_projection)
    }

    pub fn split_reservoir_dynamics(self) -> (parts: (ReservoirDynamics<T, I, E>, M, P))
        ensures
            parts.0 == self.dynamics(),
            parts.1 == self.measurement(),
            parts.2 == self.readout(),
    {
        (self.reservoir_dynamics, self.reservoir_state_measurement, self.reservoir_state_projection)
    }

    /// Runs the dynamics on their own predictions from `state` and gives the
    /// predictions; see `ReservoirDynamics::synchronize_and_predict`.
    pub fn synchronize_and_predict(
        &self,
        state: &mut Vec<T>,
        input: MatrixSlice<'_, T>,
        sync_steps: usize,
        predict_steps: usize,
    ) -> (predictions: Matrix<T>)
        requires
            self.well_formed(),
            sync_steps == 0,
            old(state)@.len() == self.dynamics().evolution().input_len(),
            input@.len() == self.dynamics().projection().window_len(),
            input.rows() == self.dynamics().projection().input_len(),
            2 * input@.len() <= usize::MAX,
            input.rows() * (2 * input@.len()) <= usize::MAX,
            input.rows() * predict_steps <= usize::MAX,
        ensures
            final(state)@.len() == old(state)@.len(),
            predictions.rows() == self.readout().output_len(),
            predictions@.len() == predict_steps,
            predicts(
                self.dynamics().projection(),
                self.dynamics().evolution(),
                self.measurement(),
                self.readout(),
                input@,
                old(state)@,
                final(state)@,
                predictions@,
            ),
    {
        self.reservoir_dynamics.synchronize_and_predict(
            state,
            input,
            sync_steps,
            predict_steps,
            &self.reservoir_state_measurement,
            &self.reservoir_state_projection,
        )
    }

    /// Runs the dynamics on their own predictions from `state` and writes
    /// the predictions into `result`; see
    /// `ReservoirDynamics::synchronize_and_predict_into`.
    pub fn synchronize_and_predict_into(
        &self,
        state: &mut Vec<T>,
        input: MatrixSlice<'_, T>,
        sync_steps: usize,
        predict_steps: usize,
        result: &mut Matrix<T>,
    )
        requires
            self.well_formed(),
            sync_steps == 0,
            old(state)@.len() == self.dynamics().evolution().input_len(),
            input@.len() == self.dynamics().projection().window_len(),
            input.rows() == self.dynamics().projection().input_len(),
            old(result).rows() == input.rows(),
            predict_steps <= old(result)@.len(),
            2 * input@.len() <= usize::MAX,
            input.rows() * (2 * input@.len()) <= usize::MAX,
        ensures
            final(state)@.len() == old(state)@.len(),
            final(result).rows() == old(result).rows(),
            final(result)@.len() == old(result)@.len(),
            predicts(
                self.dynamics().projection(),
                self.dynamics().evolution(),
                self.measurement(),
                self.readout(),
                input@,
                old(state)@,
                final(state)@,
                final(result)@.subrange(0, predict_steps as int),
            ),
            forall|j: int|
                predict_steps <= j < old(result)@.len() ==> final(result)@[j] == old(result)@[j],
    {
        self.reservoir_dynamics.synchronize_and_predict_into(
            state,
            input,
            sync_steps,
            predict_steps,
            &self.reservoir_state_measurement,
            &self.reservoir_state_projection,
            result,
        );
    }
}

} // verus!
