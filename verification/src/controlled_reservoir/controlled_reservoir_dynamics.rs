//! The dynamics of a controlled reservoir.

use std::marker::PhantomData;
use vstd::prelude::*;

use crate::controlled_time_evolution::ControlledReservoirTimeEvolution;
use crate::input_projection::ReservoirInputProjection;

verus! {

/// A projection of the input, a projection of the control and the time
/// evolution that both drive.
#[derive(Debug)]
pub struct ControlledReservoirDynamics<
    T,
    I: ReservoirInputProjection<T>,
    C: ReservoirInputProjection<T>,
    E: ControlledReservoirTimeEvolution<T>,
> {
    reservoir_input_projection: I,
    reservoir_controlled_input_projection: C,
    reservoir_time_evolution: E,
    _phantom: PhantomData<T>,
}

impl<
    T,
    I: ReservoirInputProjection<T>,
    C: ReservoirInputProjection<T>,
    E: ControlledReservoirTimeEvolution<T>,
> ControlledReservoirDynamics<T, I, C, E> {
    /// The projection of the input.
    pub closed spec fn projection(&self) -> I {
        self.reservoir_input_projection
    }

    /// The projection of the control.
    pub closed spec fn control_projection(&self) -> C {
        self.reservoir_controlled_input_projection
    }

    /// The time evolution.
    pub closed spec fn evolution(&self) -> E {
        self.reservoir_time_evolution
    }

    pub fn input_projection(&self) -> (projection: &I)
        ensures
            *projection == self.projection(),
    {
        &self.reservoir_input_projection
    }

    pub fn controlled_input_projection(&self) -> (projection: &C)
        ensures
            *projection == self.control_projection(),
    {
        &self.reservoir_controlled_input_projection
    }

    pub fn time_evolution(&self) -> (evolution: &E)
        ensures
            *evolution == self.evolution(),
    {
        &self.reservoir_time_evolution
    }
}

} // verus!
