use rescomp::activation_function::ActivationFunctionWrapper;
use rescomp::echo_state_network::{EchoStateNetworkBuilder, SparseDiscreteEchoStateNetwork};
use rescomp::input_projection::{IdentityProjectionWithEmbedding, ReservoirInputProjection};
use rescomp::matrix::Matrix;
use rescomp::output_projection::{LinearStateProjection, ReservoirStateProjection};
use rescomp::reservoir::{
    Reservoir, ReservoirComputer, ReservoirComputerDynamics, ReservoirDynamics,
};
use rescomp::state_measurement::{DefaultStateMeasurement, ReservoirStateMeasurement};
use rescomp::time_evolution::ReservoirTimeEvolution;

type Echo = SparseDiscreteEchoStateNetwork<f64, ActivationFunctionWrapper<f64, fn(usize, f64) -> f64>>;

fn keep(_: usize, v: f64) -> f64 {
    v
}

fn double(_: usize, v: f64) -> f64 {
    2.0 * v
}

/// The time evolution that replaces the state of `size` entries by what
/// `activation` makes of the projected input.
fn follower(size: usize, activation: fn(usize, f64) -> f64) -> Echo {
    let adjacency = Matrix::filled(size, size, 0.0);
    EchoStateNetworkBuilder::from_adjacency(&adjacency)
        .build_sparse_discrete_network(ActivationFunctionWrapper::new(activation))
}

/// The readout that adds the entries of a measurement of `size` entries up.
fn summing_readout(size: usize) -> LinearStateProjection<f64> {
    LinearStateProjection::new_with_matrix(Matrix::filled(1, size, 1.0))
}

#[test]
fn synchronize_drives_the_state_through_every_window() {
    let dynamics =
        ReservoirDynamics::new(IdentityProjectionWithEmbedding::<f64>::new(1, 1, 2), follower(2, keep));
    let input = Matrix::from_vec(1, 6, vec![1., 2., 3., 4., 5., 6.]);
    let mut state = vec![0.0, 0.0];
    dynamics.synchronize_state(&mut state, input.columns(0, 6));
    assert_eq!(state, vec![4., 6.]);
    let mut state = vec![0.0, 0.0];
    dynamics.synchronize_state(&mut state, input.columns(0, 3));
    assert_eq!(state, vec![1., 3.]);
}

#[test]
fn record_gives_one_state_for_each_column_after_the_synchronization() {
    let mut reservoir =
        Reservoir::new(IdentityProjectionWithEmbedding::<f64>::new(1, 0, 0), follower(1, keep));
    assert_eq!(reservoir.state(), &vec![0.0]);
    let input = Matrix::from_vec(1, 6, vec![10., 11., 12., 13., 14., 15.]);
    for sync_steps in 1..=6 {
        let mut fresh =
            Reservoir::new(IdentityProjectionWithEmbedding::<f64>::new(1, 0, 0), follower(1, keep));
        let states = fresh.record_states(input.columns(0, 6), sync_steps);
        assert_eq!(states.ncols(), 6 - sync_steps);
        assert_eq!(states.nrows(), fresh.time_evolution().output_dimension());
    }
    let states = reservoir.record_states(input.columns(0, 6), 2);
    assert_eq!(states.ncols(), 4);
    assert_eq!(states.nrows(), 1);
    assert_eq!(states.into_vec(), vec![12., 13., 14., 15.]);
    assert_eq!(reservoir.state(), &vec![15.]);
}

#[test]
fn record_with_an_embedding_records_a_state_for_every_column() {
    let mut reservoir =
        Reservoir::new(IdentityProjectionWithEmbedding::<f64>::new(1, 1, 1), follower(2, keep));
    let input = Matrix::from_vec(1, 7, vec![1., 2., 3., 4., 5., 6., 7.]);
    let states = reservoir.record_states(input.columns(0, 7), 3);
    assert_eq!(states.ncols(), 4);
    assert_eq!(states.nrows(), 2);
    assert_eq!(
        states.clone_columns(),
        vec![vec![3., 4.], vec![4., 5.], vec![5., 6.], vec![6., 7.]]
    );
    assert_eq!(reservoir.state(), &vec![6., 7.]);

    let mut reservoir =
        Reservoir::new(IdentityProjectionWithEmbedding::<f64>::new(1, 1, 1), follower(2, keep));
    let mut result = Matrix::filled(2, 5, -1.0);
    reservoir.record_states_into(input.columns(0, 7), 3, &mut result);
    assert_eq!(
        result.clone_columns(),
        vec![vec![3., 4.], vec![4., 5.], vec![5., 6.], vec![6., 7.], vec![-1., -1.]]
    );
}

#[test]
fn prediction_without_embedding_feeds_each_prediction_back() {
    let dynamics =
        ReservoirDynamics::new(IdentityProjectionWithEmbedding::<f64>::new(1, 0, 0), follower(1, double));
    let measurement = DefaultStateMeasurement::new(1);
    let readout = summing_readout(1);
    let kickstarter = Matrix::from_vec(1, 1, vec![1.0]);
    let mut state = vec![0.0];
    let predictions = dynamics.synchronize_and_predict(
        &mut state,
        kickstarter.columns(0, 1),
        0,
        4,
        &measurement,
        &readout,
    );
    assert_eq!(predictions.into_vec(), vec![2., 4., 8., 16.]);
    assert_eq!(state, vec![32.]);
}

#[test]
fn prediction_with_embedding_blends_the_kickstarter_with_the_predictions() {
    let dynamics =
        ReservoirDynamics::new(IdentityProjectionWithEmbedding::<f64>::new(1, 2, 1), follower(3, keep));
    let measurement = DefaultStateMeasurement::new(3);
    let readout = summing_readout(3);
    let kickstarter = Matrix::from_vec(1, 3, vec![1., 2., 3.]);
    let mut state = vec![0.0; 3];
    let predictions = dynamics.synchronize_and_predict(
        &mut state,
        kickstarter.columns(0, 3),
        0,
        7,
        &measurement,
        &readout,
    );
    // The windows fed back: [2 3 6], [3 6 11], [6 11 20], then the three
    // newest predictions: [11 20 37], [20 37 68], [37 68 125], [68 125 230].
    assert_eq!(predictions.into_vec(), vec![6., 11., 20., 37., 68., 125., 230.]);
    assert_eq!(state, vec![68., 125., 230.]);
}

#[test]
fn prediction_from_the_third_step_on_does_not_read_the_kickstarter() {
    let measurement = DefaultStateMeasurement::new(3);
    let readout = summing_readout(3);
    let run = |kickstarter: Vec<f64>, state: Vec<f64>| {
        let dynamics = ReservoirDynamics::new(
            IdentityProjectionWithEmbedding::<f64>::new(1, 2, 1),
            follower(3, keep),
        );
        let kickstarter = Matrix::from_vec(1, 3, kickstarter);
        let mut state = state;
        let mut result = Matrix::filled(1, 6, 0.0);
        dynamics.synchronize_and_predict_into(
            &mut state,
            kickstarter.columns(0, 3),
            0,
            2,
            &measurement,
            &readout,
            &mut result,
        );
        (state, result.into_vec())
    };
    // After two predictions the window still holds the last kickstarter
    // column.
    let (state, predictions) = run(vec![1., 2., 3.], vec![0.0; 3]);
    assert_eq!(predictions, vec![6., 11., 0., 0., 0., 0.]);
    assert_eq!(state, vec![3., 6., 11.]);

    let dynamics =
        ReservoirDynamics::new(IdentityProjectionWithEmbedding::<f64>::new(1, 2, 1), follower(3, keep));
    let mut state = vec![0.0; 3];
    let kickstarter = Matrix::from_vec(1, 3, vec![1., 2., 3.]);
    let predictions = dynamics.synchronize_and_predict(
        &mut state,
        kickstarter.columns(0, 3),
        0,
        3,
        &measurement,
        &readout,
    );
    assert_eq!(predictions.clone_columns(), vec![vec![6.], vec![11.], vec![20.]]);
    // The window of the third step is made of the three predictions alone.
    assert_eq!(state, vec![6., 11., 20.]);
}

#[test]
fn prediction_with_stride_reads_the_strided_taps() {
    let dynamics =
        ReservoirDynamics::new(IdentityProjectionWithEmbedding::<f64>::new(1, 1, 2), follower(2, keep));
    let measurement = DefaultStateMeasurement::new(2);
    let readout = summing_readout(2);
    let kickstarter = Matrix::from_vec(1, 3, vec![1., 2., 3.]);
    let mut state = vec![0.0; 2];
    let predictions = dynamics.synchronize_and_predict(
        &mut state,
        kickstarter.columns(0, 3),
        0,
        5,
        &measurement,
        &readout,
    );
    // states: [1 3] -> 4; window [2 3 4] -> [2 4] -> 6; window [3 4 6] ->
    // [3 6] -> 9; window [4 6 9] -> [4 9] -> 13; window [6 9 13] ->
    // [6 13] -> 19; window [9 13 19] -> [9 19].
    assert_eq!(predictions.into_vec(), vec![4., 6., 9., 13., 19.]);
    assert_eq!(state, vec![9., 19.]);
}

#[test]
fn prediction_from_a_known_input_sequence_reads_every_window() {
    let dynamics =
        ReservoirDynamics::new(IdentityProjectionWithEmbedding::<f64>::new(1, 1, 1), follower(2, keep));
    let measurement = DefaultStateMeasurement::new(2);
    let readout = summing_readout(2);
    let input = Matrix::from_vec(1, 4, vec![1., 2., 3., 4.]);
    let mut state = vec![0.0; 2];
    let outputs =
        dynamics.predict_from_input_sequence(&mut state, input.columns(0, 4), 0, &measurement, &readout);
    assert_eq!(outputs.ncols(), 3);
    assert_eq!(outputs.into_vec(), vec![3., 5., 7.]);
    assert_eq!(state, vec![3., 4.]);

    let mut state = vec![0.0; 2];
    let mut result = Matrix::filled(1, 3, -1.0);
    dynamics.predict_from_input_sequence_into(
        &mut state,
        input.columns(1, 2),
        0,
        &measurement,
        &readout,
        &mut result,
    );
    assert_eq!(result.into_vec(), vec![5., -1., -1.]);
    assert_eq!(state, vec![2., 3.]);

    let mut state = vec![0.0; 2];
    let mut result = Matrix::filled(1, 2, -1.0);
    dynamics.predict_from_input_sequence_into(
        &mut state,
        input.columns(0, 3),
        0,
        &measurement,
        &readout,
        &mut result,
    );
    assert_eq!(result.into_vec(), vec![3., 5.]);
}

#[test]
fn reservoir_and_computer_hand_their_parts_out() {
    let projection = IdentityProjectionWithEmbedding::<f64>::new(1, 0, 0);
    let mut dynamics = ReservoirDynamics::new(projection, follower(1, keep));
    assert_eq!(dynamics.input_projection().required_input_columns(), 1);
    assert_eq!(dynamics.input_projection_mut().input_dimension(), 1);
    assert_eq!(dynamics.time_evolution().input_dimension(), 1);
    let mut reservoir = dynamics.into_reservoir(vec![5.0]);
    assert_eq!(reservoir.state(), &vec![5.0]);
    assert_eq!(reservoir.input_projection().output_dimensions(), 1);
    let input = Matrix::from_vec(1, 2, vec![7., 8.]);
    reservoir.synchronize_state(input.columns(0, 2));
    assert_eq!(reservoir.state(), &vec![8.0]);

    let mut computer =
        ReservoirComputer::new(reservoir, DefaultStateMeasurement::new(1), summing_readout(1));
    assert_eq!(computer.state(), &vec![8.0]);
    assert_eq!(computer.state_input_projection().input_dimension(), 1);
    assert_eq!(computer.state_projection().output_dimension(), 1);
    assert_eq!(computer.state_projection().input_dimension(), 1);
    let kickstarter = Matrix::from_vec(1, 1, vec![3.0]);
    let predictions = computer.synchronize_and_predict(kickstarter.columns(0, 1), 0, 3);
    assert_eq!(predictions.into_vec(), vec![3., 3., 3.]);
    let mut result = Matrix::filled(1, 2, 0.0);
    computer.synchronize_and_predict_into(kickstarter.columns(0, 1), 0, 2, &mut result);
    assert_eq!(result.into_vec(), vec![3., 3.]);

    let dynamics = ReservoirDynamics::new(
        IdentityProjectionWithEmbedding::<f64>::new(1, 0, 0),
        follower(1, double),
    );
    let computer_dynamics =
        ReservoirComputerDynamics::new(dynamics, DefaultStateMeasurement::new(1), summing_readout(1));
    let mut state = vec![0.0];
    let predictions =
        computer_dynamics.synchronize_and_predict(&mut state, kickstarter.columns(0, 1), 0, 2);
    assert_eq!(predictions.into_vec(), vec![6., 12.]);
    let mut state = vec![0.0];
    let mut result = Matrix::filled(1, 1, 0.0);
    computer_dynamics.synchronize_and_predict_into(
        &mut state,
        kickstarter.columns(0, 1),
        0,
        1,
        &mut result,
    );
    assert_eq!(result.into_vec(), vec![6.]);
    let (dynamics, _, _) = computer_dynamics.split_reservoir_dynamics();
    let (projection, evolution) = dynamics.into_parts();
    assert_eq!(projection.input_dimension(), 1);
    assert_eq!(evolution.output_dimension(), 1);
}

#[test]
fn cloned_parts_are_parts_of_their_own() {
    let projection = IdentityProjectionWithEmbedding::<f64>::new(1, 2, 3);
    let copy = projection.clone();
    assert_eq!(copy.required_input_columns(), 7);
    assert_eq!(copy.output_dimensions(), 3);

    let measurement = DefaultStateMeasurement::<f64>::new(4);
    let copy = measurement.clone();
    assert_eq!(copy.measure(&vec![1., 2., 3., 4.]), vec![1., 2., 3., 4.]);

    let readout = summing_readout(2);
    let copy = readout.clone();
    assert_eq!(copy.project(&vec![2., 3.]), vec![5.]);
    assert_eq!(readout.project(&vec![2., 3.]), vec![5.]);
}

#[test]
fn boxed_parts_behave_as_the_parts() {
    let projection: Box<dyn ReservoirInputProjection<f64>> =
        Box::new(IdentityProjectionWithEmbedding::<f64>::new(1, 1, 1));
    let dynamics = ReservoirDynamics::new(projection, Box::new(follower(2, keep)));
    let measurement: Box<dyn ReservoirStateMeasurement<f64>> = Box::new(DefaultStateMeasurement::new(2));
    let readout: Box<dyn ReservoirStateProjection<f64>> = Box::new(summing_readout(2));
    assert_eq!(readout.input_dimension(), 2);
    assert_eq!(readout.output_dimension(), 1);
    let kickstarter = Matrix::from_vec(1, 2, vec![1., 2.]);
    let mut state = vec![0.0; 2];
    let predictions = dynamics.synchronize_and_predict(
        &mut state,
        kickstarter.columns(0, 2),
        0,
        4,
        &measurement,
        &readout,
    );
    // states: [1 2] -> 3; window [2 3] -> 5; window [3 5] -> 8; then the two
    // newest predictions: [5 8] -> 13; [8 13].
    assert_eq!(predictions.into_vec(), vec![3., 5., 8., 13.]);
    assert_eq!(state, vec![8., 13.]);

    let boxed = Box::new(summing_readout(3));
    assert_eq!(boxed.project(&vec![1., 2., 3.]), vec![6.]);
    let mut target = vec![0.0];
    boxed.project_into(&vec![1., 1., 1.], &mut target);
    assert_eq!(target, vec![3.]);
    let states = Matrix::from_vec(3, 2, vec![1., 2., 3., 4., 5., 6.]);
    assert_eq!(boxed.project_many(states.columns(0, 2)).into_vec(), vec![6., 15.]);
}

#[test]
fn record_feeds_the_columns_after_the_synchronization() {
    let dynamics =
        ReservoirDynamics::new(IdentityProjectionWithEmbedding::<f64>::new(1, 0, 0), follower(1, keep));
    let input = Matrix::from_vec(1, 4, vec![1., 2., 3., 4.]);
    let mut state = vec![0.0];
    let states = dynamics.record_states(&mut state, input.columns(0, 4), 2);
    assert_eq!(states.into_vec(), vec![3., 4.]);
    assert_eq!(state, vec![4.]);
}
