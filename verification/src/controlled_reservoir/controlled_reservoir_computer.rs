//! A controlled reservoir computer: a controlled reservoir with a
//! measurement and a readout.

use vstd::prelude::*;

use crate::controlled_reservoir::core_controlled_reservoir::ControlledReservoir;
use crate::controlled_time_evolution::ControlledReservoirTimeEvolution;
use crate::input_projection::ReservoirInputProjection;
use crate::output_projection::ReservoirStateProjection;
use crate::state_measurement::ReservoirStateMeasurement;

verus! {

/// A controlled reservoir together with the measurement of its state and the
/// readout of the measurement.
#[derive(Debug)]
pub struct ControlledReservoirComputer<
    T,
    I: ReservoirInputProjection<T>,
    C: ReservoirInputProjection<T>,
    E: ControlledReservoirTimeEvolution<T>,
    M: ReservoirStateMeasurement<T>,
    P: ReservoirStateProjection<T>,
> {
    reservoir: ControlledReservoir<T, I, C, E>,
    reservoir_state_measurement: M,
    reservoir_state_projection: P,
}

impl<
    T,
    I: ReservoirInputProjection<T>,
    C: ReservoirInputProjection<T>,
    E: ControlledReservoirTimeEvolution<T>,
    M: ReservoirStateMeasurement<T>,
    P: ReservoirStateProjection<T>,
> ControlledReservoirComputer<T, I, C, E, M, P> {
    /// The reservoir.
    pub closed spec fn inner(&self) -> ControlledReservoir<T, I, C, E> {
        self.reservoir
    }

    /// The measurement.
    pub closed spec fn measurement(&self) -> M {
        self.reservoir_state_measurement
    }

    /// The readout.
    pub closed spec fn readout(&self) -> P {
        self.reservoir_state_projection
    }

    pub fn controlled_reservoir(&self) -> (reservoir: &ControlledReservoir<T, I, C, E>)
        ensures
            *reservoir == self.inner(),
    {
        &self.reservoir
    }

    pub fn state_measurement(&self) -> (measurement: &M)
        ensures
            *measurement == self.measurement(),
    {
        &self.reservoir_state_measurement
    }

    pub fn state_projection(&self) -> (projection: &P)
        ensures
            *projection == self.readout(),
    {
        &self.reservoir_state_projection
    }
}

} // verus!
