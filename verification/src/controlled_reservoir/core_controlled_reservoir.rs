//! A controlled reservoir: its dynamics together with its state.

use vstd::prelude::*;

use crate::controlled_reservoir::controlled_reservoir_dynamics::ControlledReservoirDynamics;
use crate::controlled_time_evolution::ControlledReservoirTimeEvolution;
use crate::input_projection::ReservoirInputProjection;

verus! {

/// The dynamics of a controlled reservoir and the state that they drive.
#[derive(Debug)]
pub struct ControlledReservoir<
    T,
    I: ReservoirInputProjection<T>,
    C: ReservoirInputProjection<T>,
    E: ControlledReservoirTimeEvolution<T>,
> {
    reservoir_state: Vec<T>,
    reservoir_dynamics: ControlledReservoirDynamics<T, I, C, E>,
}

impl<
    T,
    I: ReservoirInputProjection<T>,
    C: ReservoirInputProjection<T>,
    E: ControlledReservoirTimeEvolution<T>,
> ControlledReservoir<T, I, C, E> {
    /// The state.
    pub closed spec fn state_view(&self) -> Seq<T> {
        self.reservoir_state@
    }

    /// The dynamics.
    pub closed spec fn dynamics(&self) -> ControlledReservoirDynamics<T, I, C, E> {
        self.reservoir_dynamics
    }

    pub fn reservoir_state(&self) -> (state: &Vec<T>)
        ensures
            state@ == self.state_view(),
    {
        &self.reservoir_state
    }

    pub fn reservoir_dynamics(&self) -> (dynamics: &ControlledReservoirDynamics<T, I, C, E>)
        ensures
            *dynamics == self.dynamics(),
    {
        &self.reservoir_dynamics
    }
}

} // verus!
