//! The measurement that appends a constant to the state.

use vstd::prelude::*;

use crate::matrix::{column_of, copy_of, lemma_column_appended, Matrix, MatrixSlice};
use crate::scalar::{is_one, one_value};
use crate::state_measurement::{measures_one, ReservoirStateMeasurement};

verus! {

/// Measures a state as the state with one more entry, which holds a constant:
/// the one of the scalar type.
#[derive(Debug)]
pub struct ConstantExtensionStateMeasurement<T> {
    dimension: usize,
    const_val: T,
}

impl<T> ConstantExtensionStateMeasurement<T> {
    #[verifier::type_invariant]
    pub closed spec fn well_formed(&self) -> bool {
        self.dimension < usize::MAX
    }

    /// The length of the states that are measured.
    pub closed spec fn dimension_len(&self) -> nat {
        self.dimension as nat
    }

    /// The constant that is appended.
    pub closed spec fn constant(&self) -> T {
        self.const_val
    }
}

impl<T: nalgebra::RealField + Copy> ConstantExtensionStateMeasurement<T> {
    /// The measurement gives one vector for a state.
    pub proof fn lemma_measures_one(self)
        ensures
            measures_one(self),
    {
    }
}

impl<T: Copy> Clone for ConstantExtensionStateMeasurement<T> {
    fn clone(&self) -> (copy: Self)
        ensures
            copy == *self,
    {
        proof {
            use_type_invariant(self);
        }
        Self { dimension: self.dimension, const_val: self.const_val }
    }
}

impl<T: nalgebra::RealField + Copy> ConstantExtensionStateMeasurement<T> {
    /// The measurement of states of `input_dimension` entries.
    pub fn new(input_dimension: usize) -> (measurement: Self)
        requires
            input_dimension < usize::MAX,
        ensures
            measurement.dimension_len() == input_dimension,
            is_one(measurement.constant()),
    {
        Self { dimension: input_dimension, const_val: one_value() }
    }
}

impl<T> ReservoirStateMeasurement<T> for ConstantExtensionStateMeasurement<T> {
    open spec fn state_len(&self) -> nat {
        self.dimension_len()
    }

    open spec fn output_len(&self) -> nat {
        self.dimension_len() + 1
    }

    /// The measurement of a state is the state and then the constant.
    open spec fn measures(&self, state: Seq<T>, measured: Seq<T>) -> bool where
        T: nalgebra::RealField + Copy,
    {
        measured == state.push(self.constant())
    }

    fn output_dimension(&self) -> (n: usize) {
        proof {
            use_type_invariant(self);
        }
        self.dimension + 1
    }

    fn measure(&self, state: &Vec<T>) -> (measured: Vec<T>) where
        T: nalgebra::RealField + Copy,
    {
        let mut measured = copy_of(state);
        measured.push(self.const_val);
        measured
    }

    fn measure_into(&self, state: &Vec<T>, target: &mut Vec<T>) where
        T: nalgebra::RealField + Copy,
    {
        *target = self.measure(state);
    }

    fn measure_many(&self, states: MatrixSlice<'_, T>) -> (measured: Matrix<T>) where
        T: nalgebra::RealField + Copy,
    {
        proof {
            use_type_invariant(self);
        }
        let count: usize = states.ncols();
        let rows: usize = self.dimension + 1;
        let mut data: Vec<T> = Vec::new();
        let mut k: usize = 0;
        while k < count
            invariant
                k <= count,
                count == states@.len(),
                states.rows() == self.dimension,
                rows == self.dimension + 1,
                data@.len() == k * rows,
                forall|c: int|
                    0 <= c < k ==> #[trigger] column_of(data@, rows as nat, c)
                        == states@[c].push(self.const_val),
            decreases count - k,
        {
            let ghost before = data@;
            let mut column = self.measure(&states.column(k));
            data.append(&mut column);
            proof {
                lemma_column_appended(
                    before,
                    states@[k as int].push(self.const_val),
                    rows as nat,
                    k as int,
                );
            }
            k = k + 1;
        }
        proof {
            assert(count * rows == rows * count) by (nonlinear_arith);
        }
        let measured = Matrix::from_vec(rows, count, data);
        measured
    }

    fn measure_many_into(&self, states: MatrixSlice<'_, T>, targets: &mut Matrix<T>) where
        T: nalgebra::RealField + Copy,
    {
        *targets = self.measure_many(states);
    }
}

} // verus!
