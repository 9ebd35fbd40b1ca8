//! Training: fitting the readout of a reservoir to a time series.

use vstd::prelude::*;

use crate::input_projection::ReservoirInputProjection;
use crate::matrix::{Matrix, MatrixSlice};
use crate::output_projection::{LinearStateProjection, ReservoirStateProjection};
use crate::reservoir::core_reservoir::Reservoir;
use crate::reservoir::reservoir_computer::ReservoirComputer;
use crate::reservoir::runs::records;
use crate::scalar::{is_one, is_power, one_value, power};
use crate::state_measurement::ReservoirStateMeasurement;
use crate::time_evolution::ReservoirTimeEvolution;

verus! {

/// `beta` is the ridge parameter that training takes: a value that the scalar
/// type gives for its one raised to the power of -7.
pub open spec fn is_default_ridge_parameter<T: nalgebra::RealField + Copy + num_traits::Float>(
    beta: T,
) -> bool {
    exists|one: T| is_one(one) && #[trigger] is_power(one, -7i32, beta)
}

/// Time series, one column for each time step, and the four numbers of steps
/// that split each of them: the steps to synchronize on before training, the
/// steps to train on, the steps to synchronize on before prediction, and the
/// steps to predict.
pub struct ReservoirTraining<T> {
    data: Vec<Matrix<T>>,
    train_sync_steps: usize,
    train_steps: usize,
    prediction_sync_steps: usize,
    prediction_steps: usize,
}

impl<T> ReservoirTraining<T> {
    /// The time series.
    pub closed spec fn series(&self) -> Seq<Matrix<T>> {
        self.data@
    }

    pub closed spec fn train_sync_len(&self) -> nat {
        self.train_sync_steps as nat
    }

    pub closed spec fn train_len(&self) -> nat {
        self.train_steps as nat
    }

    pub closed spec fn prediction_sync_len(&self) -> nat {
        self.prediction_sync_steps as nat
    }

    pub closed spec fn prediction_len(&self) -> nat {
        self.prediction_steps as nat
    }

    /// The number of steps that the four windows take together.
    pub open spec fn total_len(&self) -> nat {
        self.train_sync_len() + self.train_len() + self.prediction_sync_len()
            + self.prediction_len()
    }

    /// Every series has a column for each step of the four windows.
    pub open spec fn well_formed(&self) -> bool {
        &&& self.total_len() <= usize::MAX
        &&& forall|i: int|
            0 <= i < self.series().len() ==> (#[trigger] self.series()[i])@.len()
                >= self.total_len()
    }

    /// The columns of series `index` that the reservoir is driven through in
    /// training: the synchronization window and the training window, but for
    /// its last column.
    pub open spec fn training_input(&self, index: int) -> Seq<Seq<T>> {
        self.series()[index]@.subrange(0, self.train_sync_len() + self.train_len() - 1)
    }

    /// The columns of series `index` that the readout is fitted to: those of
    /// the training window from its second column on. Column `k` is the
    /// target for the state recorded `k`-th, and is the column that follows
    /// the last one that this state has seen.
    pub open spec fn training_targets(&self, index: int) -> Seq<Seq<T>> {
        self.series()[index]@.subrange(
            self.train_sync_len() + 1 as int,
            self.train_sync_len() + self.train_len() as int,
        )
    }

    pub fn new(
        train_sync_steps: usize,
        train_steps: usize,
        prediction_sync_steps: usize,
        prediction_steps: usize,
    ) -> (training: Self)
        requires
            train_sync_steps + train_steps + prediction_sync_steps + prediction_steps
                <= usize::MAX,
        ensures
            training.well_formed(),
            training.series().len() == 0,
            training.train_sync_len() == train_sync_steps,
            training.train_len() == train_steps,
            training.prediction_sync_len() == prediction_sync_steps,
            training.prediction_len() == prediction_steps,
    {
        Self {
            data: Vec::new(),
            train_sync_steps,
            train_steps,
            prediction_sync_steps,
            prediction_steps,
        }
    }

    /// Adds a series, which has a column for each step of the four windows,
    /// and hands the session back for the next call.
    pub fn add_data(&mut self, data: Matrix<T>) -> (session: &mut Self)
        requires
            old(self).well_formed(),
            data@.len() >= old(self).total_len(),
        ensures
            session.well_formed(),
            session.series() == old(self).series().push(data),
            session.train_sync_len() == old(self).train_sync_len(),
            session.train_len() == old(self).train_len(),
            session.prediction_sync_len() == old(self).prediction_sync_len(),
            session.prediction_len() == old(self).prediction_len(),
            *final(self) == *final(session),
    {
        self.data.push(data);
        proof {
            assert forall|i: int| 0 <= i < self.series().len() implies (
            #[trigger] self.series()[i])@.len() >= self.total_len() by {
                if i < old(self).series().len() {
                    assert(self.series()[i] == old(self).series()[i]);
                }
            }
        }
        self
    }

    /// The last `required_elements` columns of the training window of series
    /// `index`: the window that kickstarts a prediction.
    pub fn get_prediction_kickstarter(
        &self,
        index: usize,
        required_elements: usize,
    ) -> (kickstarter: MatrixSlice<'_, T>)
        requires
            self.well_formed(),
            index < self.series().len(),
            required_elements <= self.train_sync_len() + self.train_len(),
        ensures
            kickstarter@ == self.series()[index as int]@.subrange(
                self.train_sync_len() + self.train_len() - required_elements,
                self.train_sync_len() + self.train_len() as int,
            ),
            kickstarter.rows() == self.series()[index as int].rows(),
    {
        self.data[index].columns(
            self.train_sync_steps + self.train_steps - required_elements,
            required_elements,
        )
    }

    /// The columns of series `index` after the training window and the
    /// synchronization before prediction: what a prediction is held against.
    pub fn get_true_future(&self, index: usize) -> (future: MatrixSlice<'_, T>)
        requires
            self.well_formed(),
            index < self.series().len(),
        ensures
            future@ == self.series()[index as int]@.subrange(
                self.train_sync_len() + self.train_len() + self.prediction_sync_len() as int,
                self.series()[index as int]@.len() as int,
            ),
            future.rows() == self.series()[index as int].rows(),
    {
        let column_count: usize = self.data[index].ncols();
        let start_offset: usize = self.train_sync_steps + self.train_steps
            + self.prediction_sync_steps;
        let remaining: usize = column_count - start_offset;
        self.data[index].columns(start_offset, remaining)
    }
}

impl<T: nalgebra::RealField + Copy> ReservoirTraining<T> {
    /// Driving a reservoir through the training input of the first series
    /// may lead from `before` to `after`, and `measured` holds a measurement
    /// of each state that is recorded on the way, in their order: one for
    /// each column of the training window but the last.
    pub open spec fn measures_training_states<
        I: ReservoirInputProjection<T>,
        E: ReservoirTimeEvolution<T>,
        M: ReservoirStateMeasurement<T>,
    >(
        &self,
        projection: I,
        evolution: E,
        measurement: M,
        before: Seq<T>,
        after: Seq<T>,
        measured: Seq<Seq<T>>,
    ) -> bool {
        exists|recorded: Seq<Seq<T>>|
            {
                &&& #[trigger] records(
                    projection,
                    evolution,
                    self.training_input(0),
                    self.train_sync_len() as int,
                    before,
                    after,
                    recorded,
                )
                &&& recorded.len() == self.train_len() - 1
                &&& measured.len() == recorded.len()
                &&& forall|k: int|
                    0 <= k < recorded.len() ==> measurement.measures(
                        #[trigger] recorded[k],
                        measured[k],
                    )
            }
    }

    /// `trained` is what training makes of the fit `fit` after the reservoir
    /// has reached the state `after`: the computer of the reservoir in that
    /// state with the fitted readout, or `None` where the fit gave none.
    pub open spec fn is_trained_with<
        I: ReservoirInputProjection<T>,
        E: ReservoirTimeEvolution<T>,
        M: ReservoirStateMeasurement<T>,
    >(
        after: Seq<T>,
        fit: Option<LinearStateProjection<T>>,
        trained: Option<ReservoirComputer<T, I, E, M, LinearStateProjection<T>>>,
    ) -> bool {
        &&& trained.is_some() == fit.is_some()
        &&& trained matches Some(computer) ==> {
            &&& computer.readout() == fit.unwrap()
            &&& computer.inner().state_view() == after
        }
    }

    /// Drives `reservoir` through the training input of the one series and
    /// gives the measurements of the recorded states, one column each.
    fn measure_training_states<
        I: ReservoirInputProjection<T>,
        E: ReservoirTimeEvolution<T>,
        M: ReservoirStateMeasurement<T>,
    >(&self, reservoir: &mut Reservoir<T, I, E>, measurement: &M) -> (measured: Matrix<T>)
        requires
            self.well_formed(),
            self.series().len() == 1,
            old(reservoir).well_formed(),
            self.series()[0].rows() == old(reservoir).dynamics().projection().input_len(),
            old(reservoir).dynamics().evolution().output_len() == old(
                reservoir,
            ).dynamics().evolution().input_len(),
            measurement.state_len() == old(reservoir).dynamics().evolution().output_len(),
            old(reservoir).dynamics().projection().window_len() <= self.train_sync_len(),
            1 <= self.train_len(),
            old(reservoir).dynamics().evolution().output_len() * (self.train_len() - 1)
                <= usize::MAX,
        ensures
            final(reservoir).well_formed(),
            final(reservoir).dynamics() == old(reservoir).dynamics(),
            measured.rows() == measurement.output_len(),
            measured@.len() == self.train_len() - 1,
            self.measures_training_states(
                old(reservoir).dynamics().projection(),
                old(reservoir).dynamics().evolution(),
                *measurement,
                old(reservoir).state_view(),
                final(reservoir).state_view(),
                measured@,
            ),
    {
        let data = &self.data[0];
        let sync_train_steps: usize = self.train_sync_steps + self.train_steps;

        let sync_train_data = data.columns(0, sync_train_steps - 1);
        let recorded_states = reservoir.record_states(sync_train_data, self.train_sync_steps);
        let measured = measurement.measure_many(
            recorded_states.columns(0, recorded_states.ncols()),
        );
        proof {
            assert(recorded_states@.subrange(0, recorded_states@.len() as int)
                =~= recorded_states@);
            assert(records(
                old(reservoir).dynamics().projection(),
                old(reservoir).dynamics().evolution(),
                self.training_input(0),
                self.train_sync_len() as int,
                old(reservoir).state_view(),
                reservoir.state_view(),
                recorded_states@,
            ));
        }
        measured
    }

    /// The computer of `reservoir`, `measurement` and the fitted readout, or
    /// `None` where the fit gave none.
    pub fn computer_of_fit<
        I: ReservoirInputProjection<T>,
        E: ReservoirTimeEvolution<T>,
        M: ReservoirStateMeasurement<T>,
    >(
        reservoir: Reservoir<T, I, E>,
        measurement: M,
        fit: Option<LinearStateProjection<T>>,
    ) -> (trained: Option<ReservoirComputer<T, I, E, M, LinearStateProjection<T>>>)
        ensures
            trained.is_some() == fit.is_some(),
            trained matches Some(computer) ==> {
                &&& computer.inner() == reservoir
                &&& computer.measurement() == measurement
                &&& computer.readout() == fit.unwrap()
            },
    {
        match fit {
            Some(linear_fit) => Some(ReservoirComputer::new(reservoir, measurement, linear_fit)),
            None => None,
        }
    }
}

impl<T: nalgebra::RealField + Copy + num_traits::Float> ReservoirTraining<T> {
    /// Trains the readout by ridge regression on the one series: drives
    /// `reservoir` through the training input, measures the recorded states
    /// and fits the readout that takes each measurement to its training
    /// target; see `LinearStateProjection::via_ridge_regression_nalgebra`. The
    /// ridge parameter is one to the power of -7. Gives `None` where the
    /// solver finds the normal equations singular.
    pub fn train_via_ridge_regression<
        I: ReservoirInputProjection<T>,
        E: ReservoirTimeEvolution<T>,
        M: ReservoirStateMeasurement<T>,
    >(&self, reservoir: Reservoir<T, I, E>, measurement: M) -> (trained: Option<
        ReservoirComputer<T, I, E, M, LinearStateProjection<T>>,
    >)
        requires
            self.well_formed(),
            self.series().len() == 1,
            reservoir.well_formed(),
            self.series()[0].rows() == reservoir.dynamics().projection().input_len(),
            reservoir.dynamics().evolution().output_len()
                == reservoir.dynamics().evolution().input_len(),
            measurement.state_len() == reservoir.dynamics().evolution().output_len(),
            reservoir.dynamics().projection().window_len() <= self.train_sync_len(),
            1 <= self.train_len(),
            reservoir.dynamics().evolution().output_len() * (self.train_len() - 1) <= usize::MAX,
            measurement.output_len() > 0 || self.series()[0].rows() == 0,
            measurement.output_len() * measurement.output_len() <= usize::MAX,
            measurement.output_len() * self.series()[0].rows() <= usize::MAX,
        ensures
            exists|
                after: Seq<T>,
                measured: Seq<Seq<T>>,
                beta: T,
                fit: Option<LinearStateProjection<T>>,
            |
                {
                    &&& self.measures_training_states(
                        reservoir.dynamics().projection(),
                        reservoir.dynamics().evolution(),
                        measurement,
                        reservoir.state_view(),
                        after,
                        measured,
                    )
                    &&& is_default_ridge_parameter(beta)
                    &&& #[trigger] LinearStateProjection::is_ridge_fit(
                        beta,
                        measured,
                        measurement.output_len(),
                        self.training_targets(0),
                        self.series()[0].rows(),
                        fit,
                    )
                    &&& #[trigger] Self::is_trained_with(after, fit, trained)
                },
            trained matches Some(computer) ==> {
                &&& computer.well_formed()
                &&& computer.inner().dynamics() == reservoir.dynamics()
                &&& computer.measurement() == measurement
                &&& computer.readout().input_len() == measurement.output_len()
                &&& computer.readout().output_len() == self.series()[0].rows()
            },
    {
        let mut reservoir = reservoir;
        let recorded_states = self.measure_training_states(&mut reservoir, &measurement);
        let sync_train_steps: usize = self.train_sync_steps + self.train_steps;
        let matching_data_states = self.data[0].columns(
            self.train_sync_steps + 1,
            sync_train_steps - self.train_sync_steps - 1,
        );
        let one: T = one_value();
        let beta: T = power(one, -7);
        proof {
            assert(is_default_ridge_parameter(beta));
        }
        let linear_fit = LinearStateProjection::via_ridge_regression_nalgebra(
            beta,
            &recorded_states,
            matching_data_states,
        );
        let ghost after = reservoir.state_view();
        let ghost measured = recorded_states@;
        proof {
            assert(matching_data_states@ == self.training_targets(0));
            assert(LinearStateProjection::is_ridge_fit(
                beta,
                measured,
                measurement.output_len(),
                self.training_targets(0),
                self.series()[0].rows(),
                linear_fit,
            ));
        }
        let trained = Self::computer_of_fit(reservoir, measurement, linear_fit);
        proof {
            assert(Self::is_trained_with(after, linear_fit, trained));
        }
        trained
    }
}

impl<T: nalgebra::RealField + Copy> ReservoirTraining<T> {
    /// Trains the readout by Tikhonov regularization with the matrix
    /// `tikhonov` on the one series: drives `reservoir` through the training
    /// input, measures the recorded states and fits the readout that takes
    /// each measurement to its training target; see
    /// `LinearStateProjection::via_tikhonov_regularization_nalgebra`. Gives
    /// `None` where the solver finds the normal equations singular.
    pub fn train_via_tikhonov_regularization<
        I: ReservoirInputProjection<T>,
        E: ReservoirTimeEvolution<T>,
        M: ReservoirStateMeasurement<T>,
    >(&self, tikhonov: &Matrix<T>, reservoir: Reservoir<T, I, E>, measurement: M) -> (trained:
        Option<ReservoirComputer<T, I, E, M, LinearStateProjection<T>>>)
        requires
            self.well_formed(),
            self.series().len() == 1,
            reservoir.well_formed(),
            self.series()[0].rows() == reservoir.dynamics().projection().input_len(),
            reservoir.dynamics().evolution().output_len()
                == reservoir.dynamics().evolution().input_len(),
            measurement.state_len() == reservoir.dynamics().evolution().output_len(),
            reservoir.dynamics().projection().window_len() <= self.train_sync_len(),
            1 <= self.train_len(),
            tikhonov@.len() == measurement.output_len(),
            reservoir.dynamics().evolution().output_len() * (self.train_len() - 1) <= usize::MAX,
            measurement.output_len() > 0 || self.series()[0].rows() == 0,
            measurement.output_len() * measurement.output_len() <= usize::MAX,
            measurement.output_len() * self.series()[0].rows() <= usize::MAX,
        ensures
            exists|after: Seq<T>, measured: Seq<Seq<T>>, fit: Option<LinearStateProjection<T>>|
                {
                    &&& self.measures_training_states(
                        reservoir.dynamics().projection(),
                        reservoir.dynamics().evolution(),
                        measurement,
                        reservoir.state_view(),
                        after,
                        measured,
                    )
                    &&& #[trigger] LinearStateProjection::is_tikhonov_fit(
                        tikhonov@,
                        tikhonov.rows(),
                        measured,
                        measurement.output_len(),
                        self.training_targets(0),
                        self.series()[0].rows(),
                        fit,
                    )
                    &&& #[trigger] Self::is_trained_with(after, fit, trained)
                },
            trained matches Some(computer) ==> {
                &&& computer.well_formed()
                &&& computer.inner().dynamics() == reservoir.dynamics()
                &&& computer.measurement() == measurement
                &&& computer.readout().input_len() == measurement.output_len()
                &&& computer.readout().output_len() == self.series()[0].rows()
            },
    {
        let mut reservoir = reservoir;
        let recorded_states = self.measure_training_states(&mut reservoir, &measurement);
        let sync_train_steps: usize = self.train_sync_steps + self.train_steps;
        let matching_data_states = self.data[0].columns(
            self.train_sync_steps + 1,
            sync_train_steps - self.train_sync_steps - 1,
        );
        let linear_fit = LinearStateProjection::via_tikhonov_regularization_nalgebra(
            tikhonov,
            &recorded_states,
            matching_data_states,
        );
        let ghost after = reservoir.state_view();
        let ghost measured = recorded_states@;
        proof {
            assert(matching_data_states@ == self.training_targets(0));
            assert(LinearStateProjection::is_tikhonov_fit(
                tikhonov@,
                tikhonov.rows(),
                measured,
                measurement.output_len(),
                self.training_targets(0),
                self.series()[0].rows(),
                linear_fit,
            ));
        }
        let trained = Self::computer_of_fit(reservoir, measurement, linear_fit);
        proof {
            assert(Self::is_trained_with(after, linear_fit, trained));
        }
        trained
    }
}

} // verus!
