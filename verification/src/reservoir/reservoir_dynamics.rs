//! The dynamics of a reservoir: synchronization, recording and prediction.

use std::marker::PhantomData;
use vstd::prelude::*;

use crate::input_projection::ReservoirInputProjection;
use crate::matrix::{Matrix, MatrixSlice};
use crate::output_projection::ReservoirStateProjection;
use crate::reservoir::core_reservoir::Reservoir;
use crate::reservoir::runs::{
    drives, feedback_window, forecasts, is_prediction_run, is_trajectory,
    lemma_prediction_run_extends, lemma_trajectory_extends, prediction_step, predicts, reads,
    records, synchronizes, trajectory_step,
};
use crate::state_measurement::ReservoirStateMeasurement;
use crate::time_evolution::ReservoirTimeEvolution;

verus! {

/// An input projection and a time evolution, which together drive a
/// reservoir state.
#[derive(Debug)]
pub struct ReservoirDynamics<T, I: ReservoirInputProjection<T>, E: ReservoirTimeEvolution<T>> {
    reservoir_input_projection: I,
    reservoir_time_evolution: E,
    _phantom: PhantomData<T>,
}

impl<
    T,
    I: ReservoirInputProjection<T> + Clone,
    E: ReservoirTimeEvolution<T> + Clone,
> Clone for ReservoirDynamics<T, I, E> {
    fn clone(&self) -> (copy: Self) {
        Self {
            reservoir_input_projection: self.reservoir_input_projection.clone(),
            reservoir_time_evolution: self.reservoir_time_evolution.clone(),
            _phantom: PhantomData,
        }
    }
}

impl<T, I: ReservoirInputProjection<T>, E: ReservoirTimeEvolution<T>> ReservoirDynamics<T, I, E> {
    /// The input projection.
    pub closed spec fn projection(&self) -> I {
        self.reservoir_input_projection
    }

    /// The time evolution.
    pub closed spec fn evolution(&self) -> E {
        self.reservoir_time_evolution
    }

    /// The projection gives what the time evolution takes.
    pub open spec fn well_formed(&self) -> bool {
        self.projection().output_len() == self.evolution().input_len()
    }
}

impl<
    T: nalgebra::RealField + Copy,
    I: ReservoirInputProjection<T>,
    E: ReservoirTimeEvolution<T>,
> ReservoirDynamics<T, I, E> {
    pub fn new(reservoir_input_projection: I, reservoir_time_evolution: E) -> (dynamics: Self)
        ensures
            dynamics.projection() == reservoir_input_projection,
            dynamics.evolution() == reservoir_time_evolution,
    {
        Self { reservoir_input_projection, reservoir_time_evolution, _phantom: PhantomData }
    }

    pub fn into_parts(self) -> (parts: (I, E))
        ensures
            parts.0 == self.projection(),
            parts.1 == self.evolution(),
    {
        (self.reservoir_input_projection, self.reservoir_time_evolution)
    }

    /// The reservoir that these dynamics drive from `state`.
    pub fn into_reservoir(self, state: Vec<T>) -> (reservoir: Reservoir<T, I, E>)
        ensures
            reservoir.dynamics() == self,
            reservoir.state_view() == state@,
    {
        Reservoir::from_dynamics(state, self)
    }

    pub fn input_projection(&self) -> (projection: &I)
        ensures
            *projection == self.projection(),
    {
        &self.reservoir_input_projection
    }

    pub fn input_projection_mut(&mut self) -> (projection: &mut I)
        ensures
            *projection == old(self).projection(),
            final(self).projection() == *final(projection),
            final(self).evolution() == old(self).evolution(),
    {
        &mut self.reservoir_input_projection
    }

    pub fn time_evolution(&self) -> (evolution: &E)
        ensures
            *evolution == self.evolution(),
    {
        &self.reservoir_time_evolution
    }

    /// Drives `state` through every window of `input` and keeps none of the
    /// states on the way.
    pub fn synchronize_state(&self, state: &mut Vec<T>, input: MatrixSlice<'_, T>)
        requires
            self.well_formed(),
            input.rows() == self.projection().input_len(),
            input@.len() >= self.projection().window_len(),
            old(state)@.len() == self.evolution().input_len(),
        ensures
            final(state)@.len() == old(state)@.len(),
            synchronizes(
                self.projection(),
                self.evolution(),
                input@,
                old(state)@,
                final(state)@,
            ),
    {
        let input_columns: usize = self.reservoir_input_projection.required_input_columns();
        let total_sync_steps: usize = input.ncols() - input_columns + 1;
        let ghost initial = state@;
        let ghost mut states: Seq<Seq<T>> = seq![state@];
        let mut step: usize = 0;
        while step < total_sync_steps
            invariant
                step <= total_sync_steps,
                self.well_formed(),
                input_columns == self.projection().window_len(),
                total_sync_steps + input_columns == input@.len() + 1,
                input.rows() == self.projection().input_len(),
                state@.len() == self.evolution().input_len(),
                states.len() == step + 1,
                states.first() == initial,
                states.last() == state@,
                forall|k: int|
                    0 <= k < states.len() - 1 ==> #[trigger] trajectory_step(
                        self.projection(),
                        self.evolution(),
                        input@,
                        states,
                        k,
                    ),
            decreases total_sync_steps - step,
        {
            let window = input.columns(step, input_columns);
            let projected = self.reservoir_input_projection.project(window);
            self.reservoir_time_evolution.time_evolution(state, &projected);
            proof {
                assert(self.projection().projects(window@, projected@));
                lemma_trajectory_extends(
                    self.projection(),
                    self.evolution(),
                    input@,
                    states,
                    state@,
                );
                states = states.push(state@);
            }
            step = step + 1;
        }
        proof {
            assert(is_trajectory(self.projection(), self.evolution(), input@, states));
        }
    }

    /// Synchronizes `state` on the first `sync_steps` columns of `input`,
    /// drives it on through the columns that follow, one window for each of
    /// them, and writes each state that follows into the next column of
    /// `result`, from column 0 on. The other columns of `result` stay as they
    /// are.
    pub fn record_states_into(
        &self,
        state: &mut Vec<T>,
        input: MatrixSlice<'_, T>,
        sync_steps: usize,
        result: &mut Matrix<T>,
    )
        requires
            self.well_formed(),
            input.rows() == self.projection().input_len(),
            old(state)@.len() == self.evolution().input_len(),
            self.projection().window_len() <= sync_steps <= input@.len(),
            old(result).rows() == old(state)@.len(),
            input@.len() - sync_steps <= old(result)@.len(),
        ensures
            final(state)@.len() == old(state)@.len(),
            final(result).rows() == old(result).rows(),
            final(result)@.len() == old(result)@.len(),
            records(
                self.projection(),
                self.evolution(),
                input@,
                sync_steps as int,
                old(state)@,
                final(state)@,
                final(result)@.subrange(0, input@.len() - sync_steps),
            ),
            forall|j: int|
                input@.len() - sync_steps <= j < old(result)@.len() ==> final(result)@[j] == old(
                    result,
                )@[j],
    {
        let data_points: usize = input.ncols();
        let required_input_columns: usize =
            self.reservoir_input_projection.required_input_columns();
        let ghost untouched = result@;

        let synchronization_slice = input.columns(0, sync_steps);
        let train_slice = input.columns(
            sync_steps - required_input_columns + 1,
            data_points - sync_steps + required_input_columns - 1,
        );
        self.synchronize_state(state, synchronization_slice);

        let total_steps: usize = data_points - sync_steps;
        let ghost synced = state@;
        let ghost mut states: Seq<Seq<T>> = seq![state@];
        let mut step: usize = 0;
        while step < total_steps
            invariant
                step <= total_steps,
                self.well_formed(),
                required_input_columns == self.projection().window_len(),
                total_steps + required_input_columns == train_slice@.len() + 1,
                total_steps <= result@.len(),
                train_slice.rows() == self.projection().input_len(),
                state@.len() == self.evolution().input_len(),
                result.rows() == state@.len(),
                result@.len() == untouched.len(),
                states.len() == step + 1,
                states.first() == synced,
                states.last() == state@,
                forall|k: int|
                    0 <= k < states.len() - 1 ==> #[trigger] trajectory_step(
                        self.projection(),
                        self.evolution(),
                        train_slice@,
                        states,
                        k,
                    ),
                forall|j: int| 0 <= j < step ==> #[trigger] result@[j] == states[j + 1],
                forall|j: int| step <= j < result@.len() ==> #[trigger] result@[j] == untouched[j],
            decreases total_steps - step,
        {
            let current_train_slice = train_slice.columns(step, required_input_columns);
            let projected = self.reservoir_input_projection.project(current_train_slice);
            self.reservoir_time_evolution.time_evolution(state, &projected);
            proof {
                assert(self.projection().projects(current_train_slice@, projected@));
                lemma_trajectory_extends(
                    self.projection(),
                    self.evolution(),
                    train_slice@,
                    states,
                    state@,
                );
                states = states.push(state@);
            }
            result.set_column(step, state);
            step = step + 1;
        }
        proof {
            assert(train_slice@ == input@.subrange(
                sync_steps - self.projection().window_len() + 1,
                input@.len() as int,
            ));
            assert(is_trajectory(self.projection(), self.evolution(), train_slice@, states));
            assert(result@.subrange(0, total_steps as int) =~= states.subrange(
                1,
                states.len() as int,
            ));
        }
    }
}

impl<
    T: nalgebra::RealField + Copy,
    I: ReservoirInputProjection<T>,
    E: ReservoirTimeEvolution<T>,
> ReservoirDynamics<T, I, E> {
    /// Projects `window` and advances `state` by one step under the
    /// projection.
    fn advance(&self, state: &mut Vec<T>, window: MatrixSlice<'_, T>)
        requires
            self.well_formed(),
            window.rows() == self.projection().input_len(),
            window@.len() == self.projection().window_len(),
            old(state)@.len() == self.evolution().input_len(),
        ensures
            final(state)@.len() == old(state)@.len(),
            drives(self.projection(), self.evolution(), window@, old(state)@, final(state)@),
    {
        let projected = self.reservoir_input_projection.project(window);
        self.reservoir_time_evolution.time_evolution(state, &projected);
        proof {
            assert(self.projection().projects(window@, projected@));
        }
    }

    /// Runs the reservoir on its own predictions: the kickstarter `input`
    /// drives `state` once, then each of `predict_steps` steps reads a
    /// prediction off the state, writes it into the next column of `result`,
    /// from column 0 on, and feeds a window back that drives the state on.
    /// The other columns of `result` stay as they are.
    ///
    /// Synchronization before the prediction is not supported: `sync_steps`
    /// is 0, and `input` is one window.
    pub fn synchronize_and_predict_into<
        M: ReservoirStateMeasurement<T>,
        P: ReservoirStateProjection<T>,
    >(
        &self,
        state: &mut Vec<T>,
        input: MatrixSlice<'_, T>,
        sync_steps: usize,
        predict_steps: usize,
        measurement: &M,
        projection: &P,
        result: &mut Matrix<T>,
    )
        requires
            self.well_formed(),
            sync_steps == 0,
            input@.len() == self.projection().window_len(),
            input.rows() == self.projection().input_len(),
            old(state)@.len() == self.evolution().input_len(),
            measurement.state_len() == old(state)@.len(),
            projection.input_len() == measurement.output_len(),
            projection.output_len() == old(result).rows(),
            old(result).rows() == input.rows(),
            predict_steps <= old(result)@.len(),
            2 * input@.len() <= usize::MAX,
            input.rows() * (2 * input@.len()) <= usize::MAX,
        ensures
            final(state)@.len() == old(state)@.len(),
            final(result).rows() == old(result).rows(),
            final(result)@.len() == old(result)@.len(),
            predicts(
                self.projection(),
                self.evolution(),
                *measurement,
                *projection,
                input@,
                old(state)@,
                final(state)@,
                final(result)@.subrange(0, predict_steps as int),
            ),
            forall|j: int|
                predict_steps <= j < old(result)@.len() ==> final(result)@[j] == old(result)@[j],
    {
        let input_columns: usize = self.reservoir_input_projection.required_input_columns();
        let ghost initial = state@;
        let ghost untouched = result@;
        let ghost kickstarter = input@;

        // The rolling buffer: what is left of the kickstarter, then the
        // predictions as they come.
        let first = input.column(0);
        let mut overlapped_data = Matrix::repeated(&first, 2 * input_columns);
        let mut tail: usize = 0;
        while tail < input_columns - 1
            invariant
                tail <= input_columns - 1,
                input_columns == input@.len(),
                overlapped_data.rows() == input.rows(),
                overlapped_data@.len() == 2 * input_columns,
                forall|j: int| 0 <= j < tail ==> #[trigger] overlapped_data@[j] == input@[j + 1],
            decreases input_columns - 1 - tail,
        {
            let column = input.column(tail + 1);
            overlapped_data.set_column(tail, &column);
            tail = tail + 1;
        }

        self.advance(state, input);
        let ghost mut states: Seq<Seq<T>> = seq![initial, state@];
        let ghost mut predictions: Seq<Seq<T>> = Seq::empty();
        let mut step: usize = 0;
        while step < predict_steps
            invariant
                step <= predict_steps,
                predict_steps <= result@.len(),
                self.well_formed(),
                input_columns >= 1,
                2 * input_columns <= usize::MAX,
                input_columns == self.projection().window_len(),
                kickstarter.len() == input_columns,
                state@.len() == self.evolution().input_len(),
                measurement.state_len() == state@.len(),
                projection.input_len() == measurement.output_len(),
                projection.output_len() == result.rows(),
                result.rows() == self.projection().input_len(),
                result@.len() == untouched.len(),
                overlapped_data.rows() == result.rows(),
                overlapped_data@.len() == 2 * input_columns,
                forall|j: int|
                    0 <= j < input_columns - 1 ==> #[trigger] overlapped_data@[j] == kickstarter[j
                        + 1],
                forall|j: int|
                    input_columns > 1 && input_columns - 1 <= j < input_columns - 1 + step && j < 2
                        * input_columns - 1 ==> #[trigger] overlapped_data@[j] == predictions[j
                        - input_columns + 1],
                predictions == result@.subrange(0, step as int),
                forall|j: int| step <= j < result@.len() ==> #[trigger] result@[j] == untouched[j],
                states.len() == step + 2,
                states.first() == initial,
                states.last() == state@,
                drives(self.projection(), self.evolution(), kickstarter, states[0], states[1]),
                forall|s: int|
                    0 <= s < predictions.len() ==> #[trigger] prediction_step(
                        self.projection(),
                        self.evolution(),
                        *measurement,
                        *projection,
                        kickstarter,
                        states,
                        predictions,
                        s,
                    ),
            decreases predict_steps - step,
        {
            let state_measurement = measurement.measure(state);
            let prediction = projection.project(&state_measurement);
            proof {
                assert(measurement.measures(state@, state_measurement@));
                assert(reads(*measurement, *projection, state@, prediction@));
            }
            result.set_column(step, &prediction);
            proof {
                assert(result@.subrange(0, step + 1) =~= predictions.push(prediction@));
            }

            if input_columns == 1 {
                let window = result.columns(step, 1);
                proof {
                    assert(window@ =~= feedback_window(
                        kickstarter,
                        predictions.push(prediction@),
                        step as int,
                    ));
                }
                self.advance(state, window);
            } else if step < input_columns {
                overlapped_data.set_column(input_columns + step - 1, &prediction);
                let window = overlapped_data.columns(step, input_columns);
                proof {
                    assert(window@ =~= feedback_window(
                        kickstarter,
                        predictions.push(prediction@),
                        step as int,
                    ));
                }
                self.advance(state, window);
            } else {
                let window = result.columns(step + 1 - input_columns, input_columns);
                proof {
                    assert(window@ =~= feedback_window(
                        kickstarter,
                        predictions.push(prediction@),
                        step as int,
                    ));
                }
                self.advance(state, window);
            }
            proof {
                lemma_prediction_run_extends(
                    self.projection(),
                    self.evolution(),
                    *measurement,
                    *projection,
                    kickstarter,
                    states,
                    predictions,
                    prediction@,
                    state@,
                );
                states = states.push(state@);
                predictions = predictions.push(prediction@);
            }
            step = step + 1;
        }
        proof {
            assert(is_prediction_run(
                self.projection(),
                self.evolution(),
                *measurement,
                *projection,
                kickstarter,
                states,
                predictions,
            ));
        }
    }

    /// Runs the reservoir on its own predictions, as
    /// `synchronize_and_predict_into` does, and gives the `predict_steps`
    /// predictions, one column each.
    pub fn synchronize_and_predict<
        M: ReservoirStateMeasurement<T>,
        P: ReservoirStateProjection<T>,
    >(
        &self,
        state: &mut Vec<T>,
        input: MatrixSlice<'_, T>,
        sync_steps: usize,
        predict_steps: usize,
        measurement: &M,
        projection: &P,
    ) -> (predictions: Matrix<T>)
        requires
            self.well_formed(),
            sync_steps == 0,
            input@.len() == self.projection().window_len(),
            input.rows() == self.projection().input_len(),
            old(state)@.len() == self.evolution().input_len(),
            measurement.state_len() == old(state)@.len(),
            projection.input_len() == measurement.output_len(),
            projection.output_len() == input.rows(),
            2 * input@.len() <= usize::MAX,
            input.rows() * (2 * input@.len()) <= usize::MAX,
            input.rows() * predict_steps <= usize::MAX,
        ensures
            final(state)@.len() == old(state)@.len(),
            predictions.rows() == projection.output_len(),
            predictions@.len() == predict_steps,
            predicts(
                self.projection(),
                self.evolution(),
                *measurement,
                *projection,
                input@,
                old(state)@,
                final(state)@,
                predictions@,
            ),
    {
        let input_columns: usize = self.reservoir_input_projection.required_input_columns();
        let last = input.column(input_columns - 1);
        let mut predictions = Matrix::repeated(&last, predict_steps);
        self.synchronize_and_predict_into(
            state,
            input,
            sync_steps,
            predict_steps,
            measurement,
            projection,
            &mut predictions,
        );
        proof {
            assert(predictions@.subrange(0, predict_steps as int) =~= predictions@);
        }
        predictions
    }

    /// Drives `state` through every window of `input` and gives the
    /// measurement of the state after each window, one column each.
    fn drive_and_measure<M: ReservoirStateMeasurement<T>>(
        &self,
        state: &mut Vec<T>,
        input: MatrixSlice<'_, T>,
        measurement: &M,
    ) -> (measured: Matrix<T>)
        requires
            self.well_formed(),
            input@.len() >= self.projection().window_len(),
            input.rows() == self.projection().input_len(),
            old(state)@.len() == self.evolution().input_len(),
            measurement.state_len() == old(state)@.len(),
            old(state)@.len() * (input@.len() - self.projection().window_len() + 1) <= usize::MAX,
        ensures
            final(state)@.len() == old(state)@.len(),
            measured.rows() == measurement.output_len(),
            measured@.len() == input@.len() - self.projection().window_len() + 1,
            exists|states: Seq<Seq<T>>|
                {
                    &&& #[trigger] is_trajectory(
                        self.projection(),
                        self.evolution(),
                        input@,
                        states,
                    )
                    &&& states.first() == old(state)@
                    &&& states.last() == final(state)@
                    &&& forall|k: int|
                        0 <= k < measured@.len() ==> measurement.measures(
                            states[k + 1],
                            #[trigger] measured@[k],
                        )
                },
    {
        let ghost initial = state@;
        let input_projection = self.reservoir_input_projection.project_many(input.share());
        let count: usize = input_projection.ncols();
        let mut reservoir_states = Matrix::repeated(state, count);
        let ghost mut states: Seq<Seq<T>> = seq![state@];
        let mut index: usize = 0;
        while index < count
            invariant
                index <= count,
                self.well_formed(),
                count == input_projection@.len(),
                count + self.projection().window_len() == input@.len() + 1,
                input_projection.rows() == self.projection().output_len(),
                forall|k: int|
                    0 <= k < input_projection@.len() ==> self.projection().projects(
                        input@.subrange(k, k + self.projection().window_len()),
                        #[trigger] input_projection@[k],
                    ),
                state@.len() == self.evolution().input_len(),
                reservoir_states.rows() == state@.len(),
                reservoir_states@.len() == count,
                states.len() == index + 1,
                states.first() == initial,
                states.last() == state@,
                forall|k: int|
                    0 <= k < states.len() - 1 ==> #[trigger] trajectory_step(
                        self.projection(),
                        self.evolution(),
                        input@,
                        states,
                        k,
                    ),
                forall|k: int| 0 <= k < index ==> #[trigger] reservoir_states@[k] == states[k + 1],
            decreases count - index,
        {
            let projected = input_projection.column(index);
            self.reservoir_time_evolution.time_evolution(state, &projected);
            proof {
                assert(self.projection().projects(
                    input@.subrange(index as int, index + self.projection().window_len()),
                    input_projection@[index as int],
                ));
                lemma_trajectory_extends(
                    self.projection(),
                    self.evolution(),
                    input@,
                    states,
                    state@,
                );
                states = states.push(state@);
            }
            reservoir_states.set_column(index, state);
            index = index + 1;
        }
        let measured = measurement.measure_many(reservoir_states.columns(0, count));
        proof {
            assert(reservoir_states@.subrange(0, count as int) =~= reservoir_states@);
            assert(is_trajectory(self.projection(), self.evolution(), input@, states));
            assert forall|k: int| 0 <= k < measured@.len() implies measurement.measures(
                states[k + 1],
                #[trigger] measured@[k],
            ) by {
                assert(reservoir_states@[k] == states[k + 1]);
            }
        }
        measured
    }

    /// Drives the reservoir through a known input sequence, with no feedback:
    /// the state after each window of `input` is read out into the next
    /// column of `result`, from column 0 on. For an input of one window,
    /// `result` may have more than one column: the others stay as they are.
    ///
    /// Synchronization before the prediction is not supported: `sync_steps`
    /// is 0.
    pub fn predict_from_input_sequence_into<
        M: ReservoirStateMeasurement<T>,
        P: ReservoirStateProjection<T>,
    >(
        &self,
        state: &mut Vec<T>,
        input: MatrixSlice<'_, T>,
        sync_steps: usize,
        measurement: &M,
        projection: &P,
        result: &mut Matrix<T>,
    )
        requires
            self.well_formed(),
            sync_steps == 0,
            input@.len() >= self.projection().window_len(),
            input.rows() == self.projection().input_len(),
            old(state)@.len() == self.evolution().input_len(),
            measurement.state_len() == old(state)@.len(),
            projection.input_len() == measurement.output_len(),
            projection.output_len() == old(result).rows(),
            input@.len() == self.projection().window_len() ==> old(result)@.len() >= 1,
            input@.len() > self.projection().window_len() ==> old(result)@.len() == input@.len()
                - self.projection().window_len() + 1,
            old(state)@.len() * (input@.len() - self.projection().window_len() + 1) <= usize::MAX,
        ensures
            final(state)@.len() == old(state)@.len(),
            final(result).rows() == old(result).rows(),
            final(result)@.len() == old(result)@.len(),
            forecasts(
                self.projection(),
                self.evolution(),
                *measurement,
                *projection,
                input@,
                old(state)@,
                final(state)@,
                final(result)@.subrange(0, input@.len() - self.projection().window_len() + 1),
            ),
            forall|j: int|
                input@.len() - self.projection().window_len() + 1 <= j < old(result)@.len()
                    ==> final(result)@[j] == old(result)@[j],
    {
        if input.ncols() == self.reservoir_input_projection.required_input_columns() {
            let ghost initial = state@;
            self.advance(state, input);
            let state_measurement = measurement.measure(state);
            let output = projection.project(&state_measurement);
            result.set_column(0, &output);
            proof {
                let states = seq![initial, state@];
                assert(input@.subrange(0, input@.len() as int) =~= input@);
                assert(trajectory_step(self.projection(), self.evolution(), input@, states, 0));
                assert(is_trajectory(self.projection(), self.evolution(), input@, states));
                assert(measurement.measures(state@, state_measurement@));
                assert(reads(*measurement, *projection, states[1], output@));
            }
        } else {
            let measured = self.drive_and_measure(state, input, measurement);
            let count: usize = measured.ncols();
            projection.project_many_into(measured.columns(0, count), result);
            proof {
                assert(measured@.subrange(0, count as int) =~= measured@);
                assert(result@.subrange(0, count as int) =~= result@);
                let states = choose|states: Seq<Seq<T>>|
                    {
                        &&& #[trigger] is_trajectory(
                            self.projection(),
                            self.evolution(),
                            input@,
                            states,
                        )
                        &&& states.first() == old(state)@
                        &&& states.last() == state@
                        &&& forall|k: int|
                            0 <= k < measured@.len() ==> measurement.measures(
                                states[k + 1],
                                #[trigger] measured@[k],
                            )
                    };
                assert forall|k: int| 0 <= k < result@.len() implies reads(
                    *measurement,
                    *projection,
                    states[k + 1],
                    #[trigger] result@[k],
                ) by {
                    assert(measurement.measures(states[k + 1], measured@[k]));
                    assert(projection.reads_out(measured@[k], result@[k]));
                }
            }
        }
    }

    /// Drives the reservoir through a known input sequence, as
    /// `predict_from_input_sequence_into` does, and gives the outputs, one
    /// column for each window of `input`.
    pub fn predict_from_input_sequence<
        M: ReservoirStateMeasurement<T>,
        P: ReservoirStateProjection<T>,
    >(
        &self,
        state: &mut Vec<T>,
        input: MatrixSlice<'_, T>,
        sync_steps: usize,
        measurement: &M,
        projection: &P,
    ) -> (predictions: Matrix<T>)
        requires
            self.well_formed(),
            sync_steps == 0,
            input@.len() >= self.projection().window_len(),
            input.rows() == self.projection().input_len(),
            old(state)@.len() == self.evolution().input_len(),
            measurement.state_len() == old(state)@.len(),
            projection.input_len() == measurement.output_len(),
            old(state)@.len() * (input@.len() - self.projection().window_len() + 1) <= usize::MAX,
        ensures
            final(state)@.len() == old(state)@.len(),
            predictions.rows() == projection.output_len(),
            predictions@.len() == input@.len() - self.projection().window_len() + 1,
            forecasts(
                self.projection(),
                self.evolution(),
                *measurement,
                *projection,
                input@,
                old(state)@,
                final(state)@,
                predictions@,
            ),
    {
        let measured = self.drive_and_measure(state, input, measurement);
        let count: usize = measured.ncols();
        let predictions = projection.project_many(measured.columns(0, count));
        proof {
            assert(measured@.subrange(0, count as int) =~= measured@);
            let states = choose|states: Seq<Seq<T>>|
                {
                    &&& #[trigger] is_trajectory(
                        self.projection(),
                        self.evolution(),
                        input@,
                        states,
                    )
                    &&& states.first() == old(state)@
                    &&& states.last() == state@
                    &&& forall|k: int|
                        0 <= k < measured@.len() ==> measurement.measures(
                            states[k + 1],
                            #[trigger] measured@[k],
                        )
                };
            assert forall|k: int| 0 <= k < predictions@.len() implies reads(
                *measurement,
                *projection,
                states[k + 1],
                #[trigger] predictions@[k],
            ) by {
                assert(measurement.measures(states[k + 1], measured@[k]));
                assert(projection.reads_out(measured@[k], predictions@[k]));
            }
        }
        predictions
    }
}

impl<
    T: nalgebra::RealField + Copy,
    I: ReservoirInputProjection<T>,
    E: ReservoirTimeEvolution<T>,
> ReservoirDynamics<T, I, E> {
    /// Synchronizes `state` on the first `sync_steps` columns of `input`,
    /// drives it on through the columns that follow and gives the states
    /// that follow, one column for each column of `input` after the
    /// synchronization.
    pub fn record_states(
        &self,
        state: &mut Vec<T>,
        input: MatrixSlice<'_, T>,
        sync_steps: usize,
    ) -> (states: Matrix<T>)
        requires
            self.well_formed(),
            input.rows() == self.projection().input_len(),
            old(state)@.len() == self.evolution().input_len(),
            self.evolution().output_len() == self.evolution().input_len(),
            self.projection().window_len() <= sync_steps <= input@.len(),
            self.evolution().output_len() * (input@.len() - sync_steps) <= usize::MAX,
        ensures
            final(state)@.len() == old(state)@.len(),
            states.rows() == self.evolution().output_len(),
            states@.len() == input@.len() - sync_steps,
            forall|j: int|
                0 <= j < states@.len() ==> (#[trigger] states@[j]).len()
                    == self.evolution().output_len(),
            records(
                self.projection(),
                self.evolution(),
                input@,
                sync_steps as int,
                old(state)@,
                final(state)@,
                states@,
            ),
    {
        let mut states = Matrix::repeated(state, input.ncols() - sync_steps);
        self.record_states_into(state, input, sync_steps, &mut states);
        proof {
            assert(states@.subrange(0, input@.len() - sync_steps) =~= states@);
            use_type_invariant(&states);
            states.lemma_shape();
        }
        states
    }
}

} // verus!
