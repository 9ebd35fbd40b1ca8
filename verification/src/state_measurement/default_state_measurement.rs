//! The measurement that hands the state on unchanged.

use std::marker::PhantomData;
use vstd::prelude::*;

use crate::matrix::{copy_of, Matrix, MatrixSlice};
use crate::state_measurement::{measures_one, ReservoirStateMeasurement};

verus! {

/// Measures a state as itself.
#[derive(Debug)]
pub struct DefaultStateMeasurement<T> {
    dimension: usize,
    _phantom: PhantomData<T>,
}

impl<T> Clone for DefaultStateMeasurement<T> {
    fn clone(&self) -> (copy: Self)
        ensures
            copy == *self,
    {
        Self { dimension: self.dimension, _phantom: PhantomData }
    }
}

impl<T> DefaultStateMeasurement<T> {
    /// The measurement of states of `input_dimension` entries.
    pub fn new(input_dimension: usize) -> (measurement: Self)
        ensures
            measurement.dimension_len() == input_dimension,
    {
        Self { dimension: input_dimension, _phantom: PhantomData }
    }

    /// The length of the states that are measured.
    pub closed spec fn dimension_len(&self) -> nat {
        self.dimension as nat
    }
}

impl<T: nalgebra::RealField + Copy> DefaultStateMeasurement<T> {
    /// The measurement gives one vector for a state.
    pub proof fn lemma_measures_one(self)
        ensures
            measures_one(self),
    {
    }
}

impl<T> ReservoirStateMeasurement<T> for DefaultStateMeasurement<T> {
    open spec fn state_len(&self) -> nat {
        self.dimension_len()
    }

    open spec fn output_len(&self) -> nat {
        self.dimension_len()
    }

    /// The measurement of a state is the state.
    open spec fn measures(&self, state: Seq<T>, measured: Seq<T>) -> bool where
        T: nalgebra::RealField + Copy,
    {
        measured == state
    }

    fn output_dimension(&self) -> (n: usize) {
        self.dimension
    }

    fn measure(&self, state: &Vec<T>) -> (measured: Vec<T>) where
        T: nalgebra::RealField + Copy,
    {
        copy_of(state)
    }

    fn measure_into(&self, state: &Vec<T>, target: &mut Vec<T>) where
        T: nalgebra::RealField + Copy,
    {
        *target = copy_of(state);
    }

    fn measure_many(&self, states: MatrixSlice<'_, T>) -> (measured: Matrix<T>) where
        T: nalgebra::RealField + Copy,
    {
        states.to_matrix()
    }

    fn measure_many_into(&self, states: MatrixSlice<'_, T>, targets: &mut Matrix<T>) where
        T: nalgebra::RealField + Copy,
    {
        *targets = states.to_matrix();
    }
}

} // verus!
