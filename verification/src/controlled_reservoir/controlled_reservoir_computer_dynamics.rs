//! The dynamics of a controlled reservoir computer.

use vstd::prelude::*;

use crate::controlled_reservoir::controlled_reservoir_dynamics::ControlledReservoirDynamics;
use crate::controlled_time_evolution::ControlledReservoirTimeEvolution;
use crate::input_projection::ReservoirInputProjection;
use crate::output_projection::ReservoirStateProjection;
use crate::state_measurement::ReservoirStateMeasurement;

verus! {

/// The dynamics of a controlled reservoir together with the measurement of
/// its state and the readout of the measurement.
#[derive(Debug)]
pub struct ControlledReservoirComputerDynamics<
    T,
    I: ReservoirInputProjection<T>,
    C: ReservoirInputProjection<T>,
    E: ControlledReservoirTimeEvolution<T>,
    M: ReservoirStateMeasurement<T>,
    P: ReservoirStateProjection<T>,
> {
    reservoir_dynamics: ControlledReservoirDynamics<T, I, C, E>,
    reservoir_state_measurement: M,
    reservoir_state_projection: P,
}

impl<
    T,
    I: ReservoirInputProjection<T>,
    C: ReservoirInputProjection<T>,
    E: ControlledReservoirTimeEvolution<T>,
    M: ReservoirStateMeasurement<T>,
    P: ReservoirStateProjection<T>,
> ControlledReservoirComputerDynamics<T, I, C, E, M, P> {
    /// The dynamics of the reservoir.
    pub closed spec fn dynamics(&self) -> ControlledReservoirDynamics<T, I, C, E> {
        self.reservoir_dynamics
    }

    /// The measurement.
    pub closed spec fn measurement(&self) -> M {
        self.reservoir_state_measurement
    }

    /// The readout.
    pub closed spec fn readout(&self) -> P {
        self.reservoir_state_projection
    }

    pub fn reservoir_dynamics(&self) -> (dynamics: &ControlledReservoirDynamics<T, I, C, E>)
        ensures
            *dynamics == self.dynamics(),
    {
        &self.reservoir_dynamics
    }

    pub fn state_measurement(&self) -> (measurement: &M)
        ensures
            *measurement == self.measurement(),
    {
        &self.reservoir_state_measurement
    }

    pub fn state_projection(&self) -> (projection: &P)
        ensures
            *projection == self.readout(),
    {
        &self.reservoir_state_projection
    }
}

} // verus!
