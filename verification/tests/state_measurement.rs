use rescomp::matrix::Matrix;
use rescomp::state_measurement::{
    ConstantExtensionStateMeasurement, DefaultStateMeasurement, ExtendedLuStateMeasurement,
    LuStateMeasurement, ReservoirStateMeasurement,
};

#[test]
fn constant_extension_state_measurement_test_extended_lu() {
    let cnst_ext_measure = ConstantExtensionStateMeasurement::new(2);

    let state = vec![1., 2.];
    let measure_result = cnst_ext_measure.measure(&state);
    assert_eq!(measure_result.as_slice(), &[1., 2., 1.]);

    let data = vec![1., 2., 3., 4., 5., 6., 7., 8., 9., 10.];
    let states = Matrix::from_vec(2, 5, data);
    let measure_results = cnst_ext_measure.measure_many(states.columns(0, 5));
    assert_eq!(measure_results.column(0).as_slice(), &[1., 2., 1.]);
    assert_eq!(measure_results.column(1).as_slice(), &[3., 4., 1.]);
    assert_eq!(measure_results.column(2).as_slice(), &[5., 6., 1.]);
    assert_eq!(measure_results.column(3).as_slice(), &[7., 8., 1.]);
    assert_eq!(measure_results.column(4).as_slice(), &[9., 10., 1.]);
}

#[test]
fn default_state_measurement_test_extended_lu() {
    let default_measure = DefaultStateMeasurement::new(2);

    let state = vec![1., 2.];
    let measure_result = default_measure.measure(&state);
    assert_eq!(measure_result.as_slice(), &[1., 2.]);

    let data = vec![1., 2., 3., 4., 5., 6., 7., 8., 9., 10.];
    let states = Matrix::from_vec(2, 5, data);
    let measure_results = default_measure.measure_many(states.columns(0, 5));
    assert_eq!(measure_results.column(0).as_slice(), &[1., 2.]);
    assert_eq!(measure_results.column(1).as_slice(), &[3., 4.]);
    assert_eq!(measure_results.column(2).as_slice(), &[5., 6.]);
    assert_eq!(measure_results.column(3).as_slice(), &[7., 8.]);
    assert_eq!(measure_results.column(4).as_slice(), &[9., 10.]);
}

#[test]
fn extended_lu_state_measurement_test_extended_lu() {
    let ex_lu_measure = ExtendedLuStateMeasurement::new(2);

    let state = vec![1., 2.];
    let measure_result = ex_lu_measure.measure(&state);
    assert_eq!(measure_result.as_slice(), &[1., 2., 1., 4.]);

    let data = vec![1., 2., 3., 4., 5., 6., 7., 8., 9., 10.];
    let states = Matrix::from_vec(2, 5, data);
    let measure_results = ex_lu_measure.measure_many(states.columns(0, 5));
    assert_eq!(measure_results.column(0).as_slice(), &[1., 2., 1., 4.]);
    assert_eq!(measure_results.column(1).as_slice(), &[3., 4., 9., 16.]);
    assert_eq!(measure_results.column(2).as_slice(), &[5., 6., 25., 36.]);
    assert_eq!(measure_results.column(3).as_slice(), &[7., 8., 49., 64.]);
    assert_eq!(measure_results.column(4).as_slice(), &[9., 10., 81., 100.]);
}

#[test]
fn lu_state_measurement_test_extended_lu() {
    let lu_measure = LuStateMeasurement::new(2);

    let state = vec![1., 2.];
    let measure_result = lu_measure.measure(&state);
    assert_eq!(measure_result.as_slice(), &[1., 4.]);

    let data = vec![1., 2., 3., 4., 5., 6., 7., 8., 9., 10.];
    let states = Matrix::from_vec(2, 5, data);
    let measure_results = lu_measure.measure_many(states.columns(0, 5));
    assert_eq!(measure_results.column(0).as_slice(), &[1., 4.]);
    assert_eq!(measure_results.column(1).as_slice(), &[3., 16.]);
    assert_eq!(measure_results.column(2).as_slice(), &[5., 36.]);
    assert_eq!(measure_results.column(3).as_slice(), &[7., 64.]);
    assert_eq!(measure_results.column(4).as_slice(), &[9., 100.]);
}

#[test]
fn measurements_report_their_output_dimension() {
    assert_eq!(DefaultStateMeasurement::<f64>::new(7).output_dimension(), 7);
    assert_eq!(LuStateMeasurement::<f64>::new(7).output_dimension(), 7);
    assert_eq!(ExtendedLuStateMeasurement::<f64>::new(7).output_dimension(), 14);
    assert_eq!(ConstantExtensionStateMeasurement::<f64>::new(7).output_dimension(), 8);
}

#[test]
fn measurements_write_into_targets() {
    let state = vec![3.0, -2.0, 5.0];
    let states = Matrix::from_vec(3, 2, vec![3.0, -2.0, 5.0, 1.0, 4.0, 0.5]);

    let lu = LuStateMeasurement::new(3);
    let mut target = vec![0.0; 3];
    lu.measure_into(&state, &mut target);
    assert_eq!(target, vec![3.0, 4.0, 5.0]);
    let mut targets = Matrix::filled(3, 2, 0.0);
    lu.measure_many_into(states.columns(0, 2), &mut targets);
    assert_eq!(targets.column(1), vec![1.0, 16.0, 0.5]);

    let constant = ConstantExtensionStateMeasurement::new(3);
    let mut target = vec![0.0; 4];
    constant.measure_into(&state, &mut target);
    assert_eq!(target, vec![3.0, -2.0, 5.0, 1.0]);

    let extended = ExtendedLuStateMeasurement::new(3);
    let mut targets = Matrix::filled(6, 2, 0.0);
    extended.measure_many_into(states.columns(0, 2), &mut targets);
    assert_eq!(targets.column(0), vec![3.0, -2.0, 5.0, 9.0, 4.0, 25.0]);

    let boxed: Box<dyn ReservoirStateMeasurement<f64>> = Box::new(DefaultStateMeasurement::new(3));
    assert_eq!(boxed.measure(&state), state);
    assert_eq!(boxed.output_dimension(), 3);
}
