use nalgebra::DMatrix;
use rescomp::input_projection::{
    DefaultInputProjection, IdentityProjectionWithEmbedding, InputProjectionWithEmbedding,
    ReservoirInputProjection,
};
use rescomp::matrix::Matrix;

#[test]
fn default_input_projection_basic_test() {
    let input_projection_matrix = Matrix::from_vec(2, 3, vec![1., 2., 3., 4., 5., 6.]);
    //1 3 5
    //2 4 6
    let input_projection = DefaultInputProjection::new_with_matrix(input_projection_matrix);

    let data = Matrix::from_vec(3, 1, vec![0., 1., 2.]);

    let projection_result = input_projection.project(data.columns(0, 1));
    assert_eq!(projection_result.as_slice(), &[13., 16.]);

    let data = vec![0., 1., 2., -1., 0., -2., 3., 0., 0.];
    let data = Matrix::from_vec(3, 3, data);
    let projection_results = input_projection.project_many(data.columns(0, 3));
    assert_eq!(projection_results.column(0).as_slice(), &[13., 16.]);
    assert_eq!(projection_results.column(1).as_slice(), &[-11., -14.]);
    assert_eq!(projection_results.column(2).as_slice(), &[3., 6.]);
}

#[test]
fn input_projection_with_no_embedding() {
    let input_projection_matrix = Matrix::from_vec(2, 3, vec![1., 2., 3., -4., -5., 6.]);
    //1 3 -5
    //2 -4 6
    let input_projection =
        InputProjectionWithEmbedding::new_with_matrix(input_projection_matrix, 0, 0);
    assert_eq!(input_projection.input_dimension(), 3);
    assert_eq!(input_projection.embeddings(), 0);
    assert_eq!(input_projection.required_input_columns(), 1);

    let data = vec![1., 2., 3., 4., 5., 6., 7., 8., 9.];
    let input_matrix = Matrix::from_vec(3, 3, data);

    let project_result = input_projection.project(input_matrix.columns(0, 1));
    assert_eq!(project_result.as_slice(), &[-8., 12.]);
    let project_result = input_projection.project(input_matrix.columns(1, 1));
    assert_eq!(project_result.as_slice(), &[-11., 24.]);
    let project_result = input_projection.project(input_matrix.columns(2, 1));
    assert_eq!(project_result.as_slice(), &[-14., 36.]);

    let project_many = input_projection.project_many(input_matrix.columns(0, 3));
    assert_eq!(project_many.column(0).as_slice(), &[-8., 12.]);
    assert_eq!(project_many.column(1).as_slice(), &[-11., 24.]);
    assert_eq!(project_many.column(2).as_slice(), &[-14., 36.]);
}

#[test]
fn input_projection_with_one_embedding() {
    let mat_data = vec![1., 2., 3., -4., -5., 6., 0., -1., 1., 2., -3., 2.];
    let input_projection_matrix = DMatrix::from_vec(2, 6, mat_data.clone());
    //1  3 -5  0 1 -3
    //2 -4 -6 -1 2  2
    let input_projection =
        InputProjectionWithEmbedding::new_with_matrix(Matrix::from_vec(2, 6, mat_data), 1, 1);
    assert_eq!(input_projection.input_dimension(), 3);
    assert_eq!(input_projection.embeddings(), 1);
    assert_eq!(input_projection.required_input_columns(), 2);

    let data = vec![
        1., 2., 3., 4., 5., 6., 7., 8., 9., 10., 11., 12., 13., 14., 15., 16., 17., 18.,
    ];
    // 1 4 7 10 13 16
    // 2 5 8 11 14 17
    // 3 6 9 12 15 18
    let input_matrix = Matrix::from_vec(3, 6, data);

    let data = vec![
        1., 2., 3., 4., 5., 6., 4., 5., 6., 7., 8., 9., 7., 8., 9., 10., 11., 12., 10., 11.,
        12., 13., 14., 15., 13., 14., 15., 16., 17., 18.,
    ];
    let result = input_projection_matrix * &DMatrix::from_vec(6, 5, data);

    let project_result = input_projection.project(input_matrix.columns(0, 2));
    assert_eq!(project_result.as_slice(), result.column(0).as_slice());
    let project_result = input_projection.project(input_matrix.columns(1, 2));
    assert_eq!(project_result.as_slice(), result.column(1).as_slice());
    let project_result = input_projection.project(input_matrix.columns(2, 2));
    assert_eq!(project_result.as_slice(), result.column(2).as_slice());
    let project_result = input_projection.project(input_matrix.columns(3, 2));
    assert_eq!(project_result.as_slice(), result.column(3).as_slice());
    let project_result = input_projection.project(input_matrix.columns(4, 2));
    assert_eq!(project_result.as_slice(), result.column(4).as_slice());

    let project_many = input_projection.project_many(input_matrix.columns(0, 6));
    assert_eq!(
        project_many.column(0).as_slice(),
        result.column(0).as_slice()
    );
    assert_eq!(
        project_many.column(1).as_slice(),
        result.column(1).as_slice()
    );
    assert_eq!(
        project_many.column(2).as_slice(),
        result.column(2).as_slice()
    );
    assert_eq!(
        project_many.column(3).as_slice(),
        result.column(3).as_slice()
    );
    assert_eq!(
        project_many.column(4).as_slice(),
        result.column(4).as_slice()
    );
}

#[test]
fn input_projection_with_many_embeddings() {
    let mat_data = vec![
        1., 2., 3., -4., -5., 6., 0., -1., 1., 2., -3., 2., 0.5, -1.5, 2., 0., -4., 2.,
    ];
    let input_projection_matrix = DMatrix::from_vec(2, 9, mat_data.clone());
    //1  3 -5  0 1 -3 .5   2 -4
    //2 -4 -6 -1 2  2 -1.5 0  2
    let input_projection =
        InputProjectionWithEmbedding::new_with_matrix(Matrix::from_vec(2, 9, mat_data), 2, 1);
    assert_eq!(input_projection.input_dimension(), 3);
    assert_eq!(input_projection.embeddings(), 2);
    assert_eq!(input_projection.required_input_columns(), 3);

    let data = vec![
        1., 2., 3., 4., 5., 6., 7., 8., 9., 10., 11., 12., 13., 14., 15., 16., 17., 18.,
    ];
    // 1 4 7 10 13 16
    // 2 5 8 11 14 17
    // 3 6 9 12 15 18
    let input_matrix = Matrix::from_vec(3, 6, data);

    let data = vec![
        1., 2., 3., 4., 5., 6., 7., 8., 9., 4., 5., 6., 7., 8., 9., 10., 11., 12., 7., 8., 9.,
        10., 11., 12., 13., 14., 15., 10., 11., 12., 13., 14., 15., 16., 17., 18.,
    ];
    let result = input_projection_matrix * &DMatrix::from_vec(9, 4, data);

    let project_result = input_projection.project(input_matrix.columns(0, 3));
    assert_eq!(project_result.as_slice(), result.column(0).as_slice());
    let project_result = input_projection.project(input_matrix.columns(1, 3));
    assert_eq!(project_result.as_slice(), result.column(1).as_slice());
    let project_result = input_projection.project(input_matrix.columns(2, 3));
    assert_eq!(project_result.as_slice(), result.column(2).as_slice());
    let project_result = input_projection.project(input_matrix.columns(3, 3));
    assert_eq!(project_result.as_slice(), result.column(3).as_slice());

    let project_many = input_projection.project_many(input_matrix.columns(0, 6));
    assert_eq!(
        project_many.column(0).as_slice(),
        result.column(0).as_slice()
    );
    assert_eq!(
        project_many.column(1).as_slice(),
        result.column(1).as_slice()
    );
    assert_eq!(
        project_many.column(2).as_slice(),
        result.column(2).as_slice()
    );
    assert_eq!(
        project_many.column(3).as_slice(),
        result.column(3).as_slice()
    );
}

#[test]
fn input_projection_with_many_embeddings_with_stride() {
    let mat_data = vec![
        1., 2., 3., -4., -5., 6., 0., -1., 1., 2., -3., 2., 0.5, -1.5, 2., 0., -4., 2.,
    ];
    let input_projection_matrix = DMatrix::from_vec(2, 9, mat_data.clone());
    //1  3 -5  0 1 -3 .5   2 -4
    //2 -4 -6 -1 2  2 -1.5 0  2
    let input_projection =
        InputProjectionWithEmbedding::new_with_matrix(Matrix::from_vec(2, 9, mat_data), 2, 2);
    assert_eq!(input_projection.input_dimension(), 3);
    assert_eq!(input_projection.embeddings(), 2);
    assert_eq!(input_projection.required_input_columns(), 5);

    let data = vec![
        1., 2., 3., 4., 5., 6., 7., 8., 9., 10., 11., 12., 13., 14., 15., 16., 17., 18., 20.,
        21., 22.,
    ];
    // 1 4 7 10 13 16 19
    // 2 5 8 11 14 17 20
    // 3 6 9 12 15 18 21
    let input_matrix = Matrix::from_vec(3, 7, data);

    let data = vec![
        1., 2., 3., 7., 8., 9., 13., 14., 15., 4., 5., 6., 10., 11., 12., 16., 17., 18., 7.,
        8., 9., 13., 14., 15., 20., 21., 22.,
    ];
    let result = input_projection_matrix * &DMatrix::from_vec(9, 3, data);

    let project_result = input_projection.project(input_matrix.columns(0, 5));
    assert_eq!(project_result.as_slice(), result.column(0).as_slice());

    let project_result = input_projection.project(input_matrix.columns(1, 5));
    assert_eq!(project_result.as_slice(), result.column(1).as_slice());

    let project_result = input_projection.project(input_matrix.columns(2, 5));
    assert_eq!(project_result.as_slice(), result.column(2).as_slice());

    let project_many = input_projection.project_many(input_matrix.columns(0, 7));
    assert_eq!(project_many.ncols(), 3);
    assert_eq!(
        project_many.column(0).as_slice(),
        result.column(0).as_slice()
    );
    assert_eq!(
        project_many.column(1).as_slice(),
        result.column(1).as_slice()
    );
    assert_eq!(
        project_many.column(2).as_slice(),
        result.column(2).as_slice()
    );
}

#[test]
fn identity_projection_stacks_current_and_next_column() {
    let identity_projection = IdentityProjectionWithEmbedding::<f64>::new(2, 1, 1);
    assert_eq!(identity_projection.input_dimension(), 2);
    assert_eq!(identity_projection.embeddings(), 1);
    assert_eq!(identity_projection.stride(), 1);
    assert_eq!(identity_projection.required_input_columns(), 2);
    assert_eq!(identity_projection.output_dimensions(), 4);

    let input_matrix = Matrix::from_vec(2, 3, vec![1., 2., 3., 4., 5., 6.]);
    let projected = identity_projection.project(input_matrix.columns(0, 2));
    assert_eq!(projected, vec![1., 2., 3., 4.]);
    let projected = identity_projection.project(input_matrix.columns(1, 2));
    assert_eq!(projected, vec![3., 4., 5., 6.]);
}

#[test]
fn identity_projection_dimensions_follow_the_embedding() {
    for system_dim in [0usize, 1, 3] {
        for embeddings in [0usize, 1, 4] {
            for stride in [1usize, 2, 5] {
                let projection =
                    IdentityProjectionWithEmbedding::<f64>::new(system_dim, embeddings, stride);
                assert_eq!(projection.output_dimensions(), system_dim * (1 + embeddings));
                assert_eq!(projection.required_input_columns(), 1 + embeddings * stride);
            }
        }
    }
    let matrix = Matrix::from_vec(2, 9, vec![0.5f64; 18]);
    let projection = InputProjectionWithEmbedding::new_with_matrix(matrix, 2, 3);
    assert_eq!(projection.output_dimensions(), 2);
    assert_eq!(projection.input_dimension(), 3);
    assert_eq!(projection.required_input_columns(), 7);
    let projection = DefaultInputProjection::new_with_matrix(Matrix::from_vec(4, 2, vec![1.0f64; 8]));
    assert_eq!(projection.output_dimensions(), 4);
    assert_eq!(projection.input_dimension(), 2);
    assert_eq!(projection.embeddings(), 1);
    assert_eq!(projection.required_input_columns(), 1);
}

#[test]
fn project_agrees_with_project_many_at_every_position() {
    let data: Vec<f64> = (0..24).map(|v| v as f64).collect();
    let input_matrix = Matrix::from_vec(2, 12, data.clone());
    let projection = IdentityProjectionWithEmbedding::<f64>::new(2, 3, 2);
    let window = projection.required_input_columns();
    assert_eq!(window, 7);
    let many = projection.project_many(input_matrix.columns(0, 12));
    assert_eq!(many.ncols(), 6);
    assert_eq!(many.nrows(), 8);
    for i in 0..6 {
        let single = projection.project(input_matrix.columns(i, window));
        assert_eq!(single, many.column(i));
        for tap in 0..4 {
            let raw = input_matrix.column(i + tap * 2);
            assert_eq!(&single[tap * 2..tap * 2 + 2], raw.as_slice());
        }
    }

    let weights: Vec<f64> = (0..24).map(|v| (v % 5) as f64 - 2.0).collect();
    let embedded = InputProjectionWithEmbedding::new_with_matrix(Matrix::from_vec(3, 8, weights), 3, 2);
    let many = embedded.project_many(input_matrix.columns(0, 12));
    assert_eq!(many.ncols(), 6);
    for i in 0..6 {
        let single = embedded.project(input_matrix.columns(i, window));
        assert_eq!(single, many.column(i));
        let stacked = embedded.embed(&input_matrix.columns(0, 12), i);
        assert_eq!(stacked, projection.project(input_matrix.columns(i, window)));
    }
}

#[test]
fn project_many_into_fills_as_many_columns_as_the_target_has() {
    let input_matrix = Matrix::from_vec(1, 5, vec![1., 2., 3., 4., 5.]);
    let projection = IdentityProjectionWithEmbedding::<f64>::new(1, 1, 2);
    let mut targets = Matrix::filled(2, 2, 0.0);
    projection.project_many_into(input_matrix.columns(0, 5), &mut targets);
    assert_eq!(targets.column(0), vec![1., 3.]);
    assert_eq!(targets.column(1), vec![2., 4.]);

    let mut target = vec![0.0, 0.0];
    projection.project_into(input_matrix.columns(2, 3), &mut target);
    assert_eq!(target, vec![3., 5.]);

    let boxed: Box<dyn ReservoirInputProjection<f64>> = Box::new(projection);
    assert_eq!(boxed.required_input_columns(), 3);
    assert_eq!(boxed.project(input_matrix.columns(1, 3)), vec![2., 4.]);
}

#[test]
fn random_projections_read_one_input_for_each_output() {
    let projection = DefaultInputProjection::<f64>::new_random(3, 6, 0.5);
    assert_eq!(projection.output_dimensions(), 6);
    assert_eq!(projection.input_dimension(), 3);
    let units = Matrix::from_vec(3, 3, vec![1., 0., 0., 0., 1., 0., 0., 0., 1.]);
    let weights = projection.project_many(units.columns(0, 3));
    for row in 0..6 {
        let used = (0..3).filter(|&col| weights.get(row, col) != 0.0).count();
        assert!(used <= 1);
        for col in 0..3 {
            assert!(weights.get(row, col).abs() <= 0.5);
        }
    }

    let projection = InputProjectionWithEmbedding::<f64>::new_random(2, 5, 1, 3);
    assert_eq!(projection.output_dimensions(), 5);
    assert_eq!(projection.input_dimension(), 2);
    assert_eq!(projection.embeddings(), 1);
    assert_eq!(projection.required_input_columns(), 4);
    for tap in 0..2 {
        for entry in 0..2 {
            let mut data = vec![0.0; 8];
            data[tap * 6 + entry] = 1.0;
            let window = Matrix::from_vec(2, 4, data);
            let column = projection.project(window.columns(0, 4));
            assert_eq!(column.len(), 5);
            for value in column {
                assert!(value.abs() <= 1.0);
            }
        }
    }
}
