//! A reservoir: its dynamics together with its state.

use vstd::prelude::*;

use crate::input_projection::ReservoirInputProjection;
use crate::matrix::{copy_of, Matrix, MatrixSlice};
use crate::output_projection::ReservoirStateProjection;
use crate::reservoir::reservoir_dynamics::ReservoirDynamics;
use crate::reservoir::runs::{predicts, records, synchronizes};
use crate::scalar::{is_zero, zero_value};
use crate::state_measurement::ReservoirStateMeasurement;
use crate::time_evolution::ReservoirTimeEvolution;

verus! {

/// The dynamics of a reservoir and the state that they drive.
#[derive(Debug)]
pub struct Reservoir<T, I: ReservoirInputProjection<T>, E: ReservoirTimeEvolution<T>> {
    pub(crate) reservoir_state: Vec<T>,
    pub(crate) reservoir_dynamics: ReservoirDynamics<T, I, E>,
}

impl<T, I: ReservoirInputProjection<T>, E: ReservoirTimeEvolution<T>> Reservoir<T, I, E> {
    /// The state.
    pub closed spec fn state_view(&self) -> Seq<T> {
        self.reservoir_state@
    }

    /// The dynamics.
    pub closed spec fn dynamics(&self) -> ReservoirDynamics<T, I, E> {
        self.reservoir_dynamics
    }
}

impl<
    T: Copy,
    I: ReservoirInputProjection<T> + Clone,
    E: ReservoirTimeEvolution<T> + Clone,
> Clone for Reservoir<T, I, E> {
    /// A reservoir of its own, in the same state.
    fn clone(&self) -> (copy: Self)
        ensures
            copy.state_view() == self.state_view(),
    {
        Self {
            reservoir_state: copy_of(&self.reservoir_state),
            reservoir_dynamics: self.reservoir_dynamics.clone(),
        }
    }
}

impl<
    T: nalgebra::RealField + Copy,
    I: ReservoirInputProjection<T>,
    E: ReservoirTimeEvolution<T>,
> Reservoir<T, I, E> {
    /// The projection gives what the time evolution takes, and the state has
    /// the length that the time evolution works on.
    pub open spec fn well_formed(&self) -> bool {
        &&& self.dynamics().well_formed()
        &&& self.state_view().len() == self.dynamics().evolution().input_len()
    }

    /// A reservoir with a state of zeros: every entry of the state is the
    /// zero that the scalar type gives.
    pub fn new(reservoir_input_projection: I, reservoir_time_evolution: E) -> (reservoir: Self)
        ensures
            reservoir.dynamics().projection() == reservoir_input_projection,
            reservoir.dynamics().evolution() == reservoir_time_evolution,
            reservoir.state_view().len() == reservoir_time_evolution.input_len(),
            exists|zero: T|
                #[trigger] is_zero(zero) && reservoir.state_view() == Seq::new(
                    reservoir_time_evolution.input_len(),
                    |i: int| zero,
                ),
    {
        let reservoir_dimension: usize = reservoir_time_evolution.input_dimension();
        let reservoir_dynamics = ReservoirDynamics::new(
            reservoir_input_projection,
            reservoir_time_evolution,
        );
        let zero: T = zero_value();
        let mut reservoir_state: Vec<T> = Vec::with_capacity(reservoir_dimension);
        while reservoir_state.len() < reservoir_dimension
            invariant
                reservoir_state@.len() <= reservoir_dimension,
                reservoir_state@ == Seq::new(reservoir_state@.len(), |i: int| zero),
            decreases reservoir_dimension - reservoir_state@.len(),
        {
            reservoir_state.push(zero);
            proof {
                assert(reservoir_state@ =~= Seq::new(reservoir_state@.len(), |i: int| zero));
            }
        }
        Self { reservoir_dynamics, reservoir_state }
    }

    /// The reservoir of `reservoir_dynamics` in the state `reservoir_state`.
    pub(crate) fn from_dynamics(
        reservoir_state: Vec<T>,
        reservoir_dynamics: ReservoirDynamics<T, I, E>,
    ) -> (reservoir: Self)
        ensures
            reservoir.dynamics() == reservoir_dynamics,
            reservoir.state_view() == reservoir_state@,
    {
        Self { reservoir_state, reservoir_dynamics }
    }

    pub fn into_parts(self) -> (parts: (Vec<T>, I, E))
        ensures
            parts.0@ == self.state_view(),
            parts.1 == self.dynamics().projection(),
            parts.2 == self.dynamics().evolution(),
    {
        let (i, e) = self.reservoir_dynamics.into_parts();
        (self.reservoir_state, i, e)
    }

    pub fn split_reservoir_dynamics(self) -> (parts: (Vec<T>, ReservoirDynamics<T, I, E>))
        ensures
            parts.0@ == self.state_view(),
            parts.1 == self.dynamics(),
    {
        (self.reservoir_state, self.reservoir_dynamics)
    }

    pub fn input_projection(&self) -> (projection: &I)
        ensures
            *projection == self.dynamics().projection(),
    {
        self.reservoir_dynamics.input_projection()
    }

    pub fn time_evolution(&self) -> (evolution: &E)
        ensures
            *evolution == self.dynamics().evolution(),
    {
        self.reservoir_dynamics.time_evolution()
    }

    pub fn state(&self) -> (state: &Vec<T>)
        ensures
            state@ == self.state_view(),
    {
        &self.reservoir_state
    }

    /// Drives the state through every window of `input`.
    pub fn synchronize_state(&mut self, input: MatrixSlice<'_, T>)
        requires
            old(self).well_formed(),
            input.rows() == old(self).dynamics().projection().input_len(),
            input@.len() >= old(self).dynamics().projection().window_len(),
        ensures
            final(self).well_formed(),
            final(self).dynamics() == old(self).dynamics(),
            synchronizes(
                old(self).dynamics().projection(),
                old(self).dynamics().evolution(),
                input@,
                old(self).state_view(),
                final(self).state_view(),
            ),
    {
        self.reservoir_dynamics.synchronize_state(&mut self.reservoir_state, input);
    }

    /// Synchronizes the state on the first `sync_steps` columns of `input`,
    /// drives it on and gives the states that follow, one column each; see
    /// `ReservoirDynamics::record_states`.
    pub fn record_states(&mut self, input: MatrixSlice<'_, T>, sync_steps: usize) -> (states:
        Matrix<T>)
        requires
            old(self).well_formed(),
            input.rows() == old(self).dynamics().projection().input_len(),
            old(self).dynamics().evolution().output_len() == old(
                self,
            ).dynamics().evolution().input_len(),
            old(self).dynamics().projection().window_len() <= sync_steps <= input@.len(),
            old(self).dynamics().evolution().output_len() * (input@.len() - sync_steps)
                <= usize::MAX,
        ensures
            final(self).well_formed(),
            final(self).dynamics() == old(self).dynamics(),
            states.rows() == old(self).dynamics().evolution().output_len(),
            states@.len() == input@.len() - sync_steps,
            forall|j: int|
                0 <= j < states@.len() ==> (#[trigger] states@[j]).len() == old(
                    self,
                ).dynamics().evolution().output_len(),
            records(
                old(self).dynamics().projection(),
                old(self).dynamics().evolution(),
                input@,
                sync_steps as int,
                old(self).state_view(),
                final(self).state_view(),
                states@,
            ),
    {
        self.reservoir_dynamics.record_states(&mut self.reservoir_state, input, sync_steps)
    }

    /// Synchronizes the state on the first `sync_steps` columns of `input`,
    /// drives it on and writes the states that follow into `result`; see
    /// `ReservoirDynamics::record_states_into`.
    pub fn record_states_into(
        &mut self,
        input: MatrixSlice<'_, T>,
        sync_steps: usize,
        result: &mut Matrix<T>,
    )
        requires
            old(self).well_formed(),
            input.rows() == old(self).dynamics().projection().input_len(),
            old(self).dynamics().projection().window_len() <= sync_steps <= input@.len(),
            old(result).rows() == old(self).state_view().len(),
            input@.len() - sync_steps <= old(result)@.len(),
        ensures
            final(self).well_formed(),
            final(self).dynamics() == old(self).dynamics(),
            final(result).rows() == old(result).rows(),
            final(result)@.len() == old(result)@.len(),
            records(
                old(self).dynamics().projection(),
                old(self).dynamics().evolution(),
                input@,
                sync_steps as int,
                old(self).state_view(),
                final(self).state_view(),
                final(result)@.subrange(0, input@.len() - sync_steps),
            ),
            forall|j: int|
                input@.len() - sync_steps <= j < old(result)@.len() ==> final(result)@[j] == old(
                    result,
                )@[j],
    {
        self.reservoir_dynamics.record_states_into(
            &mut self.reservoir_state,
            input,
            sync_steps,
            result,
        )
    }

    /// Runs the reservoir on its own predictions and gives them; see
    /// `ReservoirDynamics::synchronize_and_predict`.
    pub fn synchronize_and_predict<
        M: ReservoirStateMeasurement<T>,
        P: ReservoirStateProjection<T>,
    >(
        &mut self,
        input: MatrixSlice<'_, T>,
        sync_steps: usize,
        predict_steps: usize,
        readout: &M,
        projection: &P,
    ) -> (predictions: Matrix<T>)
        requires
            old(self).well_formed(),
            sync_steps == 0,
            input@.len() == old(self).dynamics().projection().window_len(),
            input.rows() == old(self).dynamics().projection().input_len(),
            readout.state_len() == old(self).state_view().len(),
            projection.input_len() == readout.output_len(),
            projection.output_len() == input.rows(),
            2 * input@.len() <= usize::MAX,
            input.rows() * (2 * input@.len()) <= usize::MAX,
            input.rows() * predict_steps <= usize::MAX,
        ensures
            final(self).well_formed(),
            final(self).dynamics() == old(self).dynamics(),
            predictions.rows() == projection.output_len(),
            predictions@.len() == predict_steps,
            predicts(
                old(self).dynamics().projection(),
                old(self).dynamics().evolution(),
                *readout,
                *projection,
                input@,
                old(self).state_view(),
                final(self).state_view(),
                predictions@,
            ),
    {
        self.reservoir_dynamics.synchronize_and_predict(
            &mut self.reservoir_state,
            input,
            sync_steps,
            predict_steps,
            readout,
            projection,
        )
    }

    /// Runs the reservoir on its own predictions and writes them into
    /// `result`; see `ReservoirDynamics::synchronize_and_predict_into`.
    pub fn synchronize_and_predict_into<
        M: ReservoirStateMeasurement<T>,
        P: ReservoirStateProjection<T>,
    >(
        &mut self,
        input: MatrixSlice<'_, T>,
        sync_steps: usize,
        predict_steps: usize,
        readout: &M,
        projection: &P,
        result: &mut Matrix<T>,
    )
        requires
            old(self).well_formed(),
            sync_steps == 0,
            input@.len() == old(self).dynamics().projection().window_len(),
            input.rows() == old(self).dynamics().projection().input_len(),
            readout.state_len() == old(self).state_view().len(),
            projection.input_len() == readout.output_len(),
            projection.output_len() == old(result).rows(),
            old(result).rows() == input.rows(),
            predict_steps <= old(result)@.len(),
            2 * input@.len() <= usize::MAX,
            input.rows() * (2 * input@.len()) <= usize::MAX,
        ensures
            final(self).well_formed(),
            final(self).dynamics() == old(self).dynamics(),
            final(result).rows() == old(result).rows(),
            final(result)@.len() == old(result)@.len(),
            predicts(
                old(self).dynamics().projection(),
                old(self).dynamics().evolution(),
                *readout,
                *projection,
                input@,
                old(self).state_view(),
                final(self).state_view(),
                final(result)@.subrange(0, predict_steps as int),
            ),
            forall|j: int|
                predict_steps <= j < old(result)@.len() ==> final(result)@[j] == old(result)@[j],
    {
        self.reservoir_dynamics.synchronize_and_predict_into(
            &mut self.reservoir_state,
            input,
            sync_steps,
            predict_steps,
            readout,
            projection,
            result,
        );
    }
}

} // verus!
