//! A reservoir computer: a reservoir with a measurement and a readout.

use vstd::prelude::*;

use crate::input_projection::ReservoirInputProjection;
use crate::matrix::{Matrix, MatrixSlice};
use crate::output_projection::ReservoirStateProjection;
use crate::reservoir::core_reservoir::Reservoir;
use crate::reservoir::runs::predicts;
use crate::state_measurement::ReservoirStateMeasurement;
use crate::time_evolution::ReservoirTimeEvolution;

verus! {

/// A reservoir together with the measurement of its state and the readout of
/// the measurement.
#[derive(Debug)]
pub struct ReservoirComputer<
    T,
    I: ReservoirInputProjection<T>,
    E: ReservoirTimeEvolution<T>,
    M: ReservoirStateMeasurement<T>,
    P: ReservoirStateProjection<T>,
> {
    pub(crate) reservoir: Reservoir<T, I, E>,
    pub(crate) reservoir_state_measurement: M,
    pub(crate) reservoir_state_projection: P,
}

impl<
    T: Copy,
    I: ReservoirInputProjection<T> + Clone,
    E: ReservoirTimeEvolution<T> + Clone,
    M: ReservoirStateMeasurement<T> + Clone,
    P: ReservoirStateProjection<T> + Clone,
> Clone for ReservoirComputer<T, I, E, M, P> {
    fn clone(&self) -> (copy: Self) {
        Self {
            reservoir: self.reservoir.clone(),
            reservoir_state_measurement: self.reservoir_state_measurement.clone(),
            reservoir_state_projection: self.reservoir_state_projection.clone(),
        }
    }
}

impl<
    T: nalgebra::RealField + Copy,
    I: ReservoirInputProjection<T>,
    E: ReservoirTimeEvolution<T>,
    M: ReservoirStateMeasurement<T>,
    P: ReservoirStateProjection<T>,
> ReservoirComputer<T, I, E, M, P> {
    /// The reservoir.
    pub closed spec fn inner(&self) -> Reservoir<T, I, E> {
        self.reservoir
    }

    /// The measurement.
    pub closed spec fn measurement(&self) -> M {
        self.reservoir_state_measurement
    }

    /// The readout.
    pub closed spec fn readout(&self) -> P {
        self.reservoir_state_projection
    }

    /// The reservoir is well formed, the measurement takes its states, and
    /// the readout takes the measurements and gives what the input
    /// projection takes.
    pub open spec fn well_formed(&self) -> bool {
        &&& self.inner().well_formed()
        &&& self.measurement().state_len() == self.inner().state_view().len()
        &&& self.readout().input_len() == self.measurement().output_len()
        &&& self.readout().output_len() == self.inner().dynamics().projection().input_len()
    }

    /// The computer of `reservoir`, `measurement` and `projection`.
    pub fn new(reservoir: Reservoir<T, I, E>, measurement: M, projection: P) -> (computer: Self)
        ensures
            computer.inner() == reservoir,
            computer.measurement() == measurement,
            computer.readout() == projection,
    {
        Self {
            reservoir,
            reservoir_state_measurement: measurement,
            reservoir_state_projection: projection,
        }
    }

    pub fn state(&self) -> (state: &Vec<T>)
        ensures
            state@ == self.inner().state_view(),
    {
        self.reservoir.state()
    }

    pub fn state_input_projection(&self) -> (projection: &I)
        ensures
            *projection == self.inner().dynamics().projection(),
    {
        self.reservoir.input_projection()
    }

    pub fn state_measurement(&self) -> (measurement: &M)
        ensures
            *measurement == self.measurement(),
    {
        &self.reservoir_state_measurement
    }

    pub fn state_projection(&self) -> (projection: &P)
        ensures
            *projection == self.readout(),
    {
        &self.reservoir_state_projection
    }

    /// Runs the computer on its own predictions and gives them; see
    /// `ReservoirDynamics::synchronize_and_predict`.
    pub fn synchronize_and_predict(
        &mut self,
        input: MatrixSlice<'_, T>,
        sync_steps: usize,
        predict_steps: usize,
    ) -> (predictions: Matrix<T>)
        requires
            old(self).well_formed(),
            sync_steps == 0,
            input@.len() == old(self).inner().dynamics().projection().window_len(),
            input.rows() == old(self).inner().dynamics().projection().input_len(),
            2 * input@.len() <= usize::MAX,
            input.rows() * (2 * input@.len()) <= usize::MAX,
            input.rows() * predict_steps <= usize::MAX,
        ensures
            final(self).well_formed(),
            final(self).inner().dynamics() == old(self).inner().dynamics(),
            final(self).measurement() == old(self).measurement(),
            final(self).readout() == old(self).readout(),
            predictions.rows() == old(self).readout().output_len(),
            predictions@.len() == predict_steps,
            predicts(
                old(self).inner().dynamics().projection(),
                old(self).inner().dynamics().evolution(),
                old(self).measurement(),
                old(self).readout(),
                input@,
                old(self).inner().state_view(),
                final(self).inner().state_view(),
                predictions@,
            ),
    {
        self.reservoir.synchronize_and_predict(
            input,
            sync_steps,
            predict_steps,
            &self.reservoir_state_measurement,
            &self.reservoir_state_projection,
        )
    }

    /// Runs the computer on its own predictions and writes them into
    /// `result`; see `ReservoirDynamics::synchronize_and_predict_into`.
    pub fn synchronize_and_predict_into(
        &mut self,
        input: MatrixSlice<'_, T>,
        sync_steps: usize,
        predict_steps: usize,
        result: &mut Matrix<T>,
    )
        requires
            old(self).well_formed(),
            sync_steps == 0,
            input@.len() == old(self).inner().dynamics().projection().window_len(),
            input.rows() == old(self).inner().dynamics().projection().input_len(),
            old(result).rows() == input.rows(),
            predict_steps <= old(result)@.len(),
            2 * input@.len() <= usize::MAX,
            input.rows() * (2 * input@.len()) <= usize::MAX,
        ensures
            final(self).well_formed(),
            final(self).inner().dynamics() == old(self).inner().dynamics(),
            final(self).measurement() == old(self).measurement(),
            final(self).readout() == old(self).readout(),
            final(result).rows() == old(result).rows(),
            final(result)@.len() == old(result)@.len(),
            predicts(
                old(self).inner().dynamics().projection(),
                old(self).inner().dynamics().evolution(),
                old(self).measurement(),
                old(self).readout(),
                input@,
                old(self).inner().state_view(),
                final(self).inner().state_view(),
                final(result)@.subrange(0, predict_steps as int),
            ),
            forall|j: int|
                predict_steps <= j < old(result)@.len() ==> final(result)@[j] == old(result)@[j],
    {
        self.reservoir.synchronize_and_predict_into(
            input,
            sync_steps,
            predict_steps,
            &self.reservoir_state_measurement,
            &self.reservoir_state_projection,
            result,
        );
    }
}

} // verus!
