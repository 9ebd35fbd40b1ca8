use rescomp::activation_function::ActivationFunctionWrapper;
use rescomp::echo_state_network::EchoStateNetworkBuilder;
use rescomp::input_projection::IdentityProjectionWithEmbedding;
use rescomp::matrix::Matrix;
use rescomp::output_projection::{LinearStateProjection, ReservoirStateProjection};
use rescomp::reservoir::training::ReservoirTraining;
use rescomp::reservoir::Reservoir;
use rescomp::state_measurement::{ConstantExtensionStateMeasurement, DefaultStateMeasurement};

fn assert_close(left: &[f64], right: &[f64], tolerance: f64) {
    assert_eq!(left.len(), right.len());
    for (l, r) in left.iter().zip(right.iter()) {
        assert!((l - r).abs() <= tolerance, "{left:?} is not {right:?}");
    }
}

/// The weights of a readout, column by column, read off the unit vectors.
fn weights_of(readout: &LinearStateProjection<f64>) -> Vec<Vec<f64>> {
    let n = readout.input_dimension();
    (0..n)
        .map(|j| {
            let mut unit = vec![0.0; n];
            unit[j] = 1.0;
            readout.project(&unit)
        })
        .collect()
}

#[test]
fn ridge_regression_solves_the_normal_equations() {
    let measured = Matrix::from_vec(2, 2, vec![1., 0., 0., 1.]);
    let targets = Matrix::from_vec(2, 2, vec![2., 0., 0., 4.]);

    let plain =
        LinearStateProjection::via_ridge_regression_nalgebra(0.0, &measured, targets.columns(0, 2))
            .unwrap();
    assert_eq!(plain.input_dimension(), 2);
    assert_eq!(plain.output_dimension(), 2);
    assert_eq!(plain.project(&vec![1., 1.]), vec![2., 4.]);

    let ridge =
        LinearStateProjection::via_ridge_regression_nalgebra(1.0, &measured, targets.columns(0, 2))
            .unwrap();
    assert_eq!(ridge.project(&vec![1., 1.]), vec![1., 2.]);
    assert_eq!(weights_of(&ridge), vec![vec![1., 0.], vec![0., 2.]]);
}

#[test]
fn ridge_regression_fits_a_rectangular_readout() {
    // Three measurements of two entries, targets of one entry: y = 2 a - b.
    let measured = Matrix::from_vec(2, 3, vec![1., 0., 0., 1., 1., 1.]);
    let targets = Matrix::from_vec(1, 3, vec![2., -1., 1.]);
    let fit =
        LinearStateProjection::via_ridge_regression_nalgebra(0.0, &measured, targets.columns(0, 3))
            .unwrap();
    assert_eq!(fit.input_dimension(), 2);
    assert_eq!(fit.output_dimension(), 1);
    assert_close(&fit.project(&vec![1., 0.]), &[2.], 1e-12);
    assert_close(&fit.project(&vec![0., 1.]), &[-1.], 1e-12);
    let outputs = fit.project_many(measured.columns(0, 3));
    assert_eq!(outputs.ncols(), 3);
    assert_close(&outputs.into_vec(), &[2., -1., 1.], 1e-12);
    let mut target = vec![0.0];
    fit.project_into(&vec![3., 1.], &mut target);
    assert_close(&target, &[5.], 1e-12);
    let mut many = Matrix::filled(1, 2, 0.0);
    fit.project_many_into(measured.columns(1, 2), &mut many);
    assert_close(&many.into_vec(), &[-1., 1.], 1e-12);
}

#[test]
fn tikhonov_regularization_adds_the_square_of_its_matrix() {
    let measured = Matrix::from_vec(2, 2, vec![1., 0., 0., 1.]);
    let targets = Matrix::from_vec(2, 2, vec![2., 0., 0., 4.]);
    let identity = Matrix::from_vec(2, 2, vec![1., 0., 0., 1.]);
    let fit = LinearStateProjection::via_tikhonov_regularization_nalgebra(
        &identity,
        &measured,
        targets.columns(0, 2),
    )
    .unwrap();
    assert_eq!(fit.project(&vec![1., 1.]), vec![1., 2.]);

    let twice = Matrix::from_vec(2, 2, vec![2., 0., 0., 2.]);
    let fit = LinearStateProjection::via_tikhonov_regularization_nalgebra(
        &twice,
        &measured,
        targets.columns(0, 2),
    )
    .unwrap();
    assert_close(&fit.project(&vec![1., 1.]), &[0.4, 0.8], 1e-12);

    // A regularization matrix of three rows and two columns.
    let tall = Matrix::from_vec(3, 2, vec![1., 0., 0., 0., 1., 0.]);
    let fit = LinearStateProjection::via_tikhonov_regularization_nalgebra(
        &tall,
        &measured,
        targets.columns(0, 2),
    )
    .unwrap();
    assert_eq!(fit.project(&vec![1., 1.]), vec![1., 2.]);
}

#[test]
fn regression_without_regularization_fails_on_a_singular_system() {
    let measured = Matrix::from_vec(2, 2, vec![0.0; 4]);
    let targets = Matrix::from_vec(1, 2, vec![1., 2.]);
    assert!(LinearStateProjection::via_ridge_regression_nalgebra(
        0.0,
        &measured,
        targets.columns(0, 2)
    )
    .is_none());
    let zero = Matrix::from_vec(2, 2, vec![0.0; 4]);
    assert!(LinearStateProjection::via_tikhonov_regularization_nalgebra(
        &zero,
        &measured,
        targets.columns(0, 2)
    )
    .is_none());
    assert!(LinearStateProjection::via_ridge_regression_nalgebra(
        1.0,
        &measured,
        targets.columns(0, 2)
    )
    .is_some());
    assert!(LinearStateProjection::<f64>::from_solution(None).is_none());
    let solution = Matrix::from_vec(2, 1, vec![3., 4.]);
    let readout = LinearStateProjection::from_solution(Some(solution)).unwrap();
    assert_eq!(readout.project(&vec![1., 1.]), vec![7.]);
}

#[test]
fn ridge_regression_with_a_vanishing_parameter_approaches_least_squares() {
    let measured = Matrix::from_vec(
        3,
        5,
        vec![1., 2., 0.5, -1., 0.3, 2., 0.7, 1.5, -0.2, 2., -1., 1., 1., 1., 0.1],
    );
    let targets = Matrix::from_vec(2, 5, vec![1., 0., 0.5, 2., -1., 1., 3., 0.2, 0.4, -0.6]);
    let plain =
        LinearStateProjection::via_ridge_regression_nalgebra(0.0, &measured, targets.columns(0, 5))
            .unwrap();
    let mut distance = f64::INFINITY;
    for beta in [1e-3, 1e-6, 1e-9, 1e-12] {
        let ridge = LinearStateProjection::via_ridge_regression_nalgebra(
            beta,
            &measured,
            targets.columns(0, 5),
        )
        .unwrap();
        let gap = weights_of(&plain)
            .iter()
            .flatten()
            .zip(weights_of(&ridge).iter().flatten())
            .map(|(p, r)| (p - r).abs())
            .fold(0.0, f64::max);
        assert!(gap <= distance);
        distance = gap;
    }
    assert!(distance <= 1e-9);
}

fn follower(size: usize) -> rescomp::echo_state_network::SparseDiscreteEchoStateNetwork<
    f64,
    ActivationFunctionWrapper<f64, fn(usize, f64) -> f64>,
> {
    fn keep(_: usize, v: f64) -> f64 {
        v
    }
    EchoStateNetworkBuilder::from_adjacency(&Matrix::filled(size, size, 0.0))
        .build_sparse_discrete_network(ActivationFunctionWrapper::new(keep as fn(usize, f64) -> f64))
}

#[test]
fn training_session_splits_a_series_into_its_windows() {
    let mut rt = ReservoirTraining::new(2, 4, 0, 2);
    rt.add_data(Matrix::from_vec(1, 10, (0..10).map(|v| v as f64).collect()));
    let kickstarter = rt.get_prediction_kickstarter(0, 1);
    assert_eq!(kickstarter.ncols(), 1);
    assert_eq!(kickstarter.column(0), vec![5.]);
    let kickstarter = rt.get_prediction_kickstarter(0, 3);
    assert_eq!(kickstarter.to_matrix().into_vec(), vec![3., 4., 5.]);
    let future = rt.get_true_future(0);
    assert_eq!(future.to_matrix().into_vec(), vec![6., 7., 8., 9.]);

    let mut rt = ReservoirTraining::new(1, 2, 1, 2);
    rt.add_data(Matrix::from_vec(1, 6, vec![0., 1., 2., 3., 4., 5.]))
        .add_data(Matrix::from_vec(1, 7, vec![9., 8., 7., 6., 5., 4., 3.]));
    assert_eq!(rt.get_true_future(0).to_matrix().into_vec(), vec![4., 5.]);
    assert_eq!(rt.get_true_future(1).to_matrix().into_vec(), vec![5., 4., 3.]);
    assert_eq!(rt.get_prediction_kickstarter(1, 2).to_matrix().into_vec(), vec![8., 7.]);
}

#[test]
fn training_fits_each_state_to_the_next_column() {
    // The series counts up. The reservoir state follows the input, and the
    // state recorded at column k is fitted to column k + 1.
    let mut rt = ReservoirTraining::new(2, 4, 0, 2);
    rt.add_data(Matrix::from_vec(1, 10, (0..10).map(|v| v as f64).collect()));
    let reservoir = Reservoir::new(IdentityProjectionWithEmbedding::<f64>::new(1, 0, 0), follower(1));
    let no_regularization = Matrix::from_vec(2, 2, vec![0.0; 4]);
    let mut computer = rt
        .train_via_tikhonov_regularization(
            &no_regularization,
            reservoir,
            ConstantExtensionStateMeasurement::new(1),
        )
        .unwrap();
    assert_eq!(computer.state(), &vec![4.]);
    assert_close(&computer.state_projection().project(&vec![1., 0.]), &[1.], 1e-9);
    assert_close(&computer.state_projection().project(&vec![0., 1.]), &[1.], 1e-9);
    let predictions = computer.synchronize_and_predict(rt.get_prediction_kickstarter(0, 1), 0, 3);
    assert_close(&predictions.into_vec(), &[6., 7., 8.], 1e-6);
    assert_close(&rt.get_true_future(0).to_matrix().into_vec()[..3], &[6., 7., 8.], 0.0);
}

#[test]
fn training_by_ridge_regression_takes_the_parameter_one() {
    let series: Vec<f64> = (0..12).map(|v| (v as f64 * 0.5).sin()).collect();
    let mut rt = ReservoirTraining::new(2, 6, 0, 2);
    rt.add_data(Matrix::from_vec(1, 12, series.clone()));
    let reservoir = Reservoir::new(IdentityProjectionWithEmbedding::<f64>::new(1, 0, 0), follower(1));
    let computer = rt
        .train_via_ridge_regression(reservoir, DefaultStateMeasurement::new(1))
        .unwrap();

    let measured = Matrix::from_vec(1, 5, series[2..7].to_vec());
    let targets = Matrix::from_vec(1, 5, series[3..8].to_vec());
    let expected =
        LinearStateProjection::via_ridge_regression_nalgebra(1.0, &measured, targets.columns(0, 5))
            .unwrap();
    assert_eq!(
        computer.state_projection().project(&vec![1.0]),
        expected.project(&vec![1.0])
    );
    let by_hand = measured
        .clone_columns()
        .iter()
        .zip(targets.clone_columns().iter())
        .map(|(x, y)| x[0] * y[0])
        .sum::<f64>()
        / (measured.clone_columns().iter().map(|x| x[0] * x[0]).sum::<f64>() + 1.0);
    assert_close(&expected.project(&vec![1.0]), &[by_hand], 1e-12);
    assert_eq!(computer.state(), &vec![series[6]]);
}

#[test]
fn training_with_an_embedding_pairs_each_window_with_the_next_column() {
    // With a window of two columns every recorded state holds the two newest
    // columns and is paired with the column that follows them.
    let series: Vec<f64> = vec![1., 2., 4., 8., 16., 32., 64., 128.];
    let mut rt = ReservoirTraining::new(2, 4, 0, 2);
    rt.add_data(Matrix::from_vec(1, 8, series));
    let reservoir = Reservoir::new(IdentityProjectionWithEmbedding::<f64>::new(1, 1, 1), follower(2));
    let computer = rt
        .train_via_ridge_regression(reservoir, DefaultStateMeasurement::new(2))
        .unwrap();
    // Recorded: [2 4], [4 8], [8 16]; targets: 8, 16, 32.
    let measured = Matrix::from_vec(2, 3, vec![2., 4., 4., 8., 8., 16.]);
    let targets = Matrix::from_vec(1, 3, vec![8., 16., 32.]);
    let expected =
        LinearStateProjection::via_ridge_regression_nalgebra(1.0, &measured, targets.columns(0, 3))
            .unwrap();
    assert_eq!(
        computer.state_projection().project(&vec![1.0, 0.0]),
        expected.project(&vec![1.0, 0.0])
    );
    assert_eq!(
        computer.state_projection().project(&vec![0.0, 1.0]),
        expected.project(&vec![0.0, 1.0])
    );
    assert_eq!(computer.state(), &vec![8., 16.]);
}

#[test]
fn fit_from_an_upper_triangle_mirrors_it_first() {
    // Below the diagonal stands what the fit does not read.
    let upper = Matrix::from_vec(2, 2, vec![2., 99., 1., 2.]);
    // 2 1
    // 1 2
    let moment = Matrix::from_vec(2, 1, vec![3., 3.]);
    let fit = LinearStateProjection::via_gram_upper_triangle(upper, &moment).unwrap();
    assert_eq!(fit.input_dimension(), 2);
    assert_eq!(fit.output_dimension(), 1);
    assert_close(&fit.project(&vec![1., 0.]), &[1.], 1e-12);
    assert_close(&fit.project(&vec![0., 1.]), &[1.], 1e-12);
    let singular = Matrix::from_vec(2, 2, vec![1., 0., 1., 1.]);
    assert!(LinearStateProjection::via_gram_upper_triangle(singular, &moment).is_none());
}
