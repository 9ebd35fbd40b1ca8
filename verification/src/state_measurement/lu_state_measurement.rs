//! The measurement that squares every second entry of the state.

use std::marker::PhantomData;
use vstd::prelude::*;

use crate::matrix::{column_of, lemma_column_appended, Matrix, MatrixSlice};
use crate::scalar::{is_product, times};
use crate::state_measurement::ReservoirStateMeasurement;

verus! {

/// `measured` holds the entries of `state` at the even indices, and at each
/// odd index a square: a value that the scalar type's `*` gives for the entry
/// of `state` there and itself.
pub open spec fn squares_odd_entries<T: nalgebra::RealField + Copy>(
    state: Seq<T>,
    measured: Seq<T>,
) -> bool {
    &&& measured.len() == state.len()
    &&& forall|i: int| 0 <= i < state.len() && i % 2 == 0 ==> #[trigger] measured[i] == state[i]
    &&& forall|i: int|
        0 <= i < state.len() && i % 2 == 1 ==> is_product(
            state[i],
            state[i],
            #[trigger] measured[i],
        )
}

/// Measures a state as itself, but with the entries at the odd indices
/// squared.
#[derive(Debug)]
pub struct LuStateMeasurement<T> {
    dimension: usize,
    _phantom: PhantomData<T>,
}

impl<T> Clone for LuStateMeasurement<T> {
    fn clone(&self) -> (copy: Self)
        ensures
            copy == *self,
    {
        Self { dimension: self.dimension, _phantom: PhantomData }
    }
}

impl<T> LuStateMeasurement<T> {
    /// The measurement of states of `input_dimension` entries.
    pub fn new(input_dimension: usize) -> (measurement: Self)
        ensures
            measurement.dimension_len() == input_dimension,
    {
        Self { dimension: input_dimension, _phantom: PhantomData }
    }

    /// The length of the states that are measured.
    pub closed spec fn dimension_len(&self) -> nat {
        self.dimension as nat
    }
}

impl<T> ReservoirStateMeasurement<T> for LuStateMeasurement<T> {
    open spec fn state_len(&self) -> nat {
        self.dimension_len()
    }

    open spec fn output_len(&self) -> nat {
        self.dimension_len()
    }

    open spec fn measures(&self, state: Seq<T>, measured: Seq<T>) -> bool where
        T: nalgebra::RealField + Copy,
    {
        squares_odd_entries(state, measured)
    }

    fn output_dimension(&self) -> (n: usize) {
        self.dimension
    }

    fn measure(&self, state: &Vec<T>) -> (measured: Vec<T>) where
        T: nalgebra::RealField + Copy,
    {
        let mut measured: Vec<T> = Vec::with_capacity(state.len());
        let mut index: usize = 0;
        while index < state.len()
            invariant
                index <= state@.len(),
                measured@.len() == index,
                forall|i: int|
                    0 <= i < index && i % 2 == 0 ==> #[trigger] measured@[i] == state@[i],
                forall|i: int|
                    0 <= i < index && i % 2 == 1 ==> is_product(
                        state@[i],
                        state@[i],
                        #[trigger] measured@[i],
                    ),
            decreases state@.len() - index,
        {
            let value: T = state[index];
            if index % 2 == 1 {
                measured.push(times(value, value));
            } else {
                measured.push(value);
            }
            index = index + 1;
        }
        measured
    }

    fn measure_into(&self, state: &Vec<T>, target: &mut Vec<T>) where
        T: nalgebra::RealField + Copy,
    {
        *target = self.measure(state);
    }

    fn measure_many(&self, states: MatrixSlice<'_, T>) -> (measured: Matrix<T>) where
        T: nalgebra::RealField + Copy,
    {
        let count: usize = states.ncols();
        let rows: usize = self.dimension;
        let mut data: Vec<T> = Vec::new();
        let mut k: usize = 0;
        while k < count
            invariant
                k <= count,
                count == states@.len(),
                states.rows() == self.dimension,
                rows == self.dimension,
                data@.len() == k * rows,
                forall|c: int|
                    0 <= c < k ==> squares_odd_entries(
                        states@[c],
                        #[trigger] column_of(data@, rows as nat, c),
                    ),
            decreases count - k,
        {
            let ghost before = data@;
            let mut column = self.measure(&states.column(k));
            proof {
                lemma_column_appended(before, column@, rows as nat, k as int);
            }
            data.append(&mut column);
            k = k + 1;
        }
        proof {
            assert(count * rows == rows * count) by (nonlinear_arith);
        }
        Matrix::from_vec(rows, count, data)
    }

    fn measure_many_into(&self, states: MatrixSlice<'_, T>, targets: &mut Matrix<T>) where
        T: nalgebra::RealField + Copy,
    {
        *targets = self.measure_many(states);
    }
}

} // verus!
