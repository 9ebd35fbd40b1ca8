use rescomp::input_projection::{IdentityProjectionWithEmbedding, ReservoirInputProjection};
use rescomp::matrix::Matrix;

#[test]
fn identity_input_no_embedding() {
    let identity_projection = IdentityProjectionWithEmbedding::<f64>::new(3, 0, 0);

    let data = vec![1., 2., 3., 4., 5., 6., 7., 8., 9.];
    let input_matrix = Matrix::from_vec(3, 3, data.clone());

    for i in [0, 1, 2] {
        let project_result = identity_projection.project(input_matrix.columns(i, 1));
        assert_eq!(project_result.as_slice(), &data[(i * 3)..(i + 1) * 3]);
    }

    let project_many = identity_projection.project_many(input_matrix.columns(0, 3));
    assert_eq!(project_many.column(0).as_slice(), &[1., 2., 3.]);
    assert_eq!(project_many.column(1).as_slice(), &[4., 5., 6.]);
    assert_eq!(project_many.column(2).as_slice(), &[7., 8., 9.]);
}

#[test]
fn identity_input_one_embedding() {
    let identity_projection = IdentityProjectionWithEmbedding::<f64>::new(3, 1, 1);

    let data = vec![
        1., 2., 3., 4., 5., 6., 7., 8., 9., 10., 11., 12., 13., 14., 15., 16., 17., 18.,
    ];
    let input_matrix = Matrix::from_vec(3, 6, data.clone());

    for i in [0, 1, 2, 3, 4] {
        let project_result = identity_projection.project(input_matrix.columns(i, 2));
        assert_eq!(project_result.as_slice(), &data[(i * 3)..(i + 2) * 3]);
    }

    let project_many = identity_projection.project_many(input_matrix.columns(0, 6));
    assert_eq!(project_many.column(0).as_slice(), &[1., 2., 3., 4., 5., 6.]);
    assert_eq!(project_many.column(1).as_slice(), &[4., 5., 6., 7., 8., 9.]);
    assert_eq!(
        project_many.column(2).as_slice(),
        &[7., 8., 9., 10., 11., 12.]
    );
    assert_eq!(
        project_many.column(3).as_slice(),
        &[10., 11., 12., 13., 14., 15.]
    );
    assert_eq!(
        project_many.column(4).as_slice(),
        &[13., 14., 15., 16., 17., 18.]
    );
}

#[test]
fn identity_input_many_embeddings() {
    let identity_projection = IdentityProjectionWithEmbedding::<f64>::new(3, 4, 1);

    let data = vec![
        1., 2., 3., 4., 5., 6., 7., 8., 9., 10., 11., 12., 13., 14., 15., 16., 17., 18.,
    ];
    let input_matrix = Matrix::from_vec(3, 6, data.clone());

    for i in [0, 1] {
        let project_result = identity_projection.project(input_matrix.columns(i, 5));
        assert_eq!(project_result.as_slice(), &data[(i * 3)..(i + 5) * 3]);
    }

    let project_many = identity_projection.project_many(input_matrix.columns(0, 6));
    assert_eq!(
        project_many.column(0).as_slice(),
        &[1., 2., 3., 4., 5., 6., 7., 8., 9., 10., 11., 12., 13., 14., 15.]
    );
    assert_eq!(
        project_many.column(1).as_slice(),
        &[4., 5., 6., 7., 8., 9., 10., 11., 12., 13., 14., 15., 16., 17., 18.]
    );
}

#[test]
fn identity_input_many_embeddings_with_stride() {
    let identity_projection = IdentityProjectionWithEmbedding::<f64>::new(3, 2, 3);

    let data = vec![
        1., 2., 3., 4., 5., 6., 7., 8., 9., 10., 11., 12., 13., 14., 15., 16., 17., 18., 20.,
        21., 22.,
    ];
    let input_matrix = Matrix::from_vec(3, 7, data);

    let project_result = identity_projection
        .project(input_matrix.columns(0, identity_projection.required_input_columns()));
    assert_eq!(
        project_result.as_slice(),
        &[1., 2., 3., 10., 11., 12., 20., 21., 22.]
    );

    let project_many = identity_projection.project_many(input_matrix.columns(0, 7));
    assert_eq!(
        project_many.column(0).as_slice(),
        &[1., 2., 3., 10., 11., 12., 20., 21., 22.]
    );
}
