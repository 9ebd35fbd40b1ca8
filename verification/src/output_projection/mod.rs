//! State projections: the readouts from measurements to outputs.

use vstd::prelude::*;

use crate::matrix::{Matrix, MatrixSlice};

pub mod linear_state_projection;

pub use linear_state_projection::LinearStateProjection;




verus! {

/// A readout from measurement vectors of `input_len()` entries to outputs of
/// `output_len()` entries.
///
/// `reads_out` says which outputs the readout may give for a measurement.
pub trait ReservoirStateProjection<T> {
    /// The length of an output.
    spec fn output_len(&self) -> nat;

    /// The length of a measurement.
    spec fn input_len(&self) -> nat;

    /// Whether `output` is a readout of `measured`.
    spec fn reads_out(&self, measured: Seq<T>, output: Seq<T>) -> bool where
        T: nalgebra::RealField + Copy,
    ;

    fn output_dimension(&self) -> (n: usize)
        ensures
            n == self.output_len(),
    ;

    fn input_dimension(&self) -> (n: usize)
        ensures
            n == self.input_len(),
    ;

    /// Reads one measurement out.
    fn project(&self, state: &Vec<T>) -> (output: Vec<T>) where
        T: nalgebra::RealField + Copy,

        requires
            state@.len() == self.input_len(),
        ensures
            output@.len() == self.output_len(),
            self.reads_out(state@, output@),
    ;

    /// Reads one measurement out into `target`.
    fn project_into(&self, state: &Vec<T>, target: &mut Vec<T>) where
        T: nalgebra::RealField + Copy,

        requires
            state@.len() == self.input_len(),
            old(target)@.len() == self.output_len(),
        ensures
            final(target)@.len() == self.output_len(),
            self.reads_out(state@, final(target)@),
    ;

    /// Reads every column of `states` out.
    fn project_many(&self, states: MatrixSlice<'_, T>) -> (outputs: Matrix<T>) where
        T: nalgebra::RealField + Copy,

        requires
            states.rows() == self.input_len(),
        ensures
            outputs.rows() == self.output_len(),
            outputs@.len() == states@.len(),
            forall|k: int|
                0 <= k < states@.len() ==> self.reads_out(states@[k], #[trigger] outputs@[k]),
    ;

    /// Reads every column of `states` out into the same column of `targets`.
    fn project_many_into(&self, states: MatrixSlice<'_, T>, targets: &mut Matrix<T>) where
        T: nalgebra::RealField + Copy,

        requires
            states.rows() == self.input_len(),
            old(targets).rows() == self.output_len(),
            old(targets)@.len() == states@.len(),
        ensures
            final(targets).rows() == self.output_len(),
            final(targets)@.len() == states@.len(),
            forall|k: int|
                0 <= k < states@.len() ==> self.reads_out(
                    states@[k],
                    #[trigger] final(targets)@[k],
                ),
    ;
}

/// The readout gives at most one output for a measurement.
pub open spec fn reads_one<
    T: nalgebra::RealField + Copy,
    P: ReservoirStateProjection<T>,
>(readout: P) -> bool {
    forall|measured: Seq<T>, a: Seq<T>, b: Seq<T>|
        #[trigger] readout.reads_out(measured, a) && #[trigger] readout.reads_out(measured, b)
            ==> a == b
}

impl<T, P: ReservoirStateProjection<T>> ReservoirStateProjection<T> for Box<P> {
    open spec fn output_len(&self) -> nat {
        (**self).output_len()
    }

    open spec fn input_len(&self) -> nat {
        (**self).input_len()
    }

    open spec fn reads_out(&self, measured: Seq<T>, output: Seq<T>) -> bool where
        T: nalgebra::RealField + Copy,
    {
        (**self).reads_out(measured, output)
    }

    fn output_dimension(&self) -> (n: usize) {
        (**self).output_dimension()
    }

    fn input_dimension(&self) -> (n: usize) {
        (**self).input_dimension()
    }

    fn project(&self, state: &Vec<T>) -> (output: Vec<T>) where
        T: nalgebra::RealField + Copy,
    {
        (**self).project(state)
    }

    fn project_into(&self, state: &Vec<T>, target: &mut Vec<T>) where
        T: nalgebra::RealField + Copy,
    {
        (**self).project_into(state, target);
    }

    fn project_many(&self, states: MatrixSlice<'_, T>) -> (outputs: Matrix<T>) where
        T: nalgebra::RealField + Copy,
    {
        (**self).project_many(states)
    }

    fn project_many_into(&self, states: MatrixSlice<'_, T>, targets: &mut Matrix<T>) where
        T: nalgebra::RealField + Copy,
    {
        (**self).project_many_into(states, targets);
    }
}

impl<T> ReservoirStateProjection<T> for Box<dyn ReservoirStateProjection<T>> {
    open spec fn output_len(&self) -> nat {
        (**self).output_len()
    }

    open spec fn input_len(&self) -> nat {
        (**self).input_len()
    }

    open spec fn reads_out(&self, measured: Seq<T>, output: Seq<T>) -> bool where
        T: nalgebra::RealField + Copy,
    {
        (**self).reads_out(measured, output)
    }

    fn output_dimension(&self) -> (n: usize) {
        (**self).output_dimension()
    }

    fn input_dimension(&self) -> (n: usize) {
        (**self).input_dimension()
    }

    fn project(&self, state: &Vec<T>) -> (output: Vec<T>) where
        T: nalgebra::RealField + Copy,
    {
        (**self).project(state)
    }

    fn project_into(&self, state: &Vec<T>, target: &mut Vec<T>) where
        T: nalgebra::RealField + Copy,
    {
        (**self).project_into(state, target);
    }

    fn project_many(&self, states: MatrixSlice<'_, T>) -> (outputs: Matrix<T>) where
        T: nalgebra::RealField + Copy,
    {
        (**self).project_many(states)
    }

    fn project_many_into(&self, states: MatrixSlice<'_, T>, targets: &mut Matrix<T>) where
        T: nalgebra::RealField + Copy,
    {
        (**self).project_many_into(states, targets);
    }
}

} // verus!
