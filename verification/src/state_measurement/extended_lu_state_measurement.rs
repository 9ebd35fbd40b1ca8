//! The measurement that appends the squares of the entries to the state.

use std::marker::PhantomData;
use vstd::prelude::*;

use crate::matrix::{column_of, lemma_column_appended, Matrix, MatrixSlice};
use crate::scalar::{is_product, times};
use crate::state_measurement::ReservoirStateMeasurement;

verus! {

/// `measured` is `state` and then, for each entry of `state`, a square: a
/// value that the scalar type's `*` gives for the entry and itself.
pub open spec fn appends_squares<T: nalgebra::RealField + Copy>(
    state: Seq<T>,
    measured: Seq<T>,
) -> bool {
    &&& measured.len() == 2 * state.len()
    &&& measured.subrange(0, state.len() as int) == state
    &&& forall|i: int|
        0 <= i < state.len() ==> is_product(
            state[i],
            state[i],
            #[trigger] measured[state.len() + i],
        )
}

/// Measures a state as the state followed by the squares of its entries.
#[derive(Debug)]
pub struct ExtendedLuStateMeasurement<T> {
    dimension: usize,
    _phantom: PhantomData<T>,
}

impl<T> Clone for ExtendedLuStateMeasurement<T> {
    fn clone(&self) -> (copy: Self)
        ensures
            copy == *self,
    {
        proof {
            use_type_invariant(self);
        }
        Self { dimension: self.dimension, _phantom: PhantomData }
    }
}

impl<T> ExtendedLuStateMeasurement<T> {
    #[verifier::type_invariant]
    pub closed spec fn well_formed(&self) -> bool {
        2 * self.dimension <= usize::MAX
    }

    /// The measurement of states of `input_dimensions` entries.
    pub fn new(input_dimensions: usize) -> (measurement: Self)
        requires
            2 * input_dimensions <= usize::MAX,
        ensures
            measurement.dimension_len() == input_dimensions,
    {
        Self { dimension: input_dimensions, _phantom: PhantomData }
    }

    /// The length of the states that are measured.
    pub closed spec fn dimension_len(&self) -> nat {
        self.dimension as nat
    }
}

impl<T> ReservoirStateMeasurement<T> for ExtendedLuStateMeasurement<T> {
    open spec fn state_len(&self) -> nat {
        self.dimension_len()
    }

    open spec fn output_len(&self) -> nat {
        2 * self.dimension_len()
    }

    open spec fn measures(&self, state: Seq<T>, measured: Seq<T>) -> bool where
        T: nalgebra::RealField + Copy,
    {
        appends_squares(state, measured)
    }

    fn output_dimension(&self) -> (n: usize) {
        proof {
            use_type_invariant(self);
        }
        2 * self.dimension
    }

    fn measure(&self, state: &Vec<T>) -> (measured: Vec<T>) where
        T: nalgebra::RealField + Copy,
    {
        let core_dimension: usize = state.len();
        let mut measured: Vec<T> = Vec::new();
        let mut index: usize = 0;
        while index < core_dimension
            invariant
                index <= core_dimension,
                core_dimension == state@.len(),
                measured@ == state@.subrange(0, index as int),
            decreases core_dimension - index,
        {
            measured.push(state[index]);
            proof {
                assert(measured@ =~= state@.subrange(0, index + 1));
            }
            index = index + 1;
        }
        let mut index: usize = 0;
        while index < core_dimension
            invariant
                index <= core_dimension,
                core_dimension == state@.len(),
                measured@.len() == core_dimension + index,
                measured@.subrange(0, core_dimension as int) == state@.subrange(
                    0,
                    core_dimension as int,
                ),
                forall|i: int|
                    0 <= i < index ==> is_product(
                        state@[i],
                        state@[i],
                        #[trigger] measured@[core_dimension + i],
                    ),
            decreases core_dimension - index,
        {
            let value: T = state[index];
            let ghost before = measured@;
            measured.push(times(value, value));
            proof {
                assert(measured@.subrange(0, core_dimension as int) =~= before.subrange(
                    0,
                    core_dimension as int,
                ));
            }
            index = index + 1;
        }
        proof {
            assert(state@.subrange(0, core_dimension as int) =~= state@);
        }
        measured
    }

    fn measure_into(&self, state: &Vec<T>, target: &mut Vec<T>) where
        T: nalgebra::RealField + Copy,
    {
        *target = self.measure(state);
    }

    fn measure_many(&self, states: MatrixSlice<'_, T>) -> (measured: Matrix<T>) where
        T: nalgebra::RealField + Copy,
    {
        proof {
            use_type_invariant(self);
        }
        let count: usize = states.ncols();
        let rows: usize = 2 * self.dimension;
        let mut data: Vec<T> = Vec::new();
        let mut k: usize = 0;
        while k < count
            invariant
                k <= count,
                count == states@.len(),
                states.rows() == self.dimension,
                rows == 2 * self.dimension,
                data@.len() == k * rows,
                forall|c: int|
                    0 <= c < k ==> appends_squares(
                        states@[c],
                        #[trigger] column_of(data@, rows as nat, c),
                    ),
            decreases count - k,
        {
            let ghost before = data@;
            let mut column = self.measure(&states.column(k));
            proof {
                lemma_column_appended(before, column@, rows as nat, k as int);
            }
            data.append(&mut column);
            k = k + 1;
        }
        proof {
            assert(count * rows == rows * count) by (nonlinear_arith);
        }
        Matrix::from_vec(rows, count, data)
    }

    fn measure_many_into(&self, states: MatrixSlice<'_, T>, targets: &mut Matrix<T>) where
        T: nalgebra::RealField + Copy,
    {
        *targets = self.measure_many(states);
    }
}

} // verus!
