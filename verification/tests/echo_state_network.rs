use rescomp::activation_function::{
    ActivationFunctionWrapper, ActiviationFunction, BiasedActivationFunction,
};
use rescomp::echo_state_network::EchoStateNetworkBuilder;
use rescomp::matrix::Matrix;
use rescomp::time_evolution::ReservoirTimeEvolution;

#[test]
fn activation_wrapper_calls_its_closure() {
    let wrapper = ActivationFunctionWrapper::new(|index: usize, value: f64| value + index as f64);
    assert_eq!(wrapper.invoke(0, 1.5), 1.5);
    assert_eq!(wrapper.invoke(3, 1.5), 4.5);
    let copy = wrapper.clone();
    assert_eq!(copy.invoke(2, 1.0), 3.0);
    let boxed: Box<dyn ActiviationFunction<f64>> = Box::new(copy);
    assert_eq!(boxed.invoke(1, 1.0), 2.0);
    let boxed = Box::new(ActivationFunctionWrapper::new(|_: usize, value: f64| -value));
    assert_eq!(boxed.invoke(1, 1.0), -1.0);
}

#[test]
fn biased_activation_draws_a_bias_for_every_entry() {
    let biased =
        BiasedActivationFunction::new_uniform_random(4, |bias: f64, value: f64| bias + value, 0.25);
    assert_eq!(biased.bias_scale(), 0.25);
    for index in 0..4 {
        let bias = biased.invoke(index, 0.0);
        assert!(bias.abs() <= 0.25);
        assert_eq!(biased.invoke(index, 10.0), bias + 10.0);
    }
}

#[test]
fn discrete_network_applies_the_activation_to_the_driven_state() {
    let adjacency = Matrix::from_vec(2, 2, vec![0., 2., 1., 0.]);
    // 0 1
    // 2 0
    let network = EchoStateNetworkBuilder::from_adjacency(&adjacency)
        .build_sparse_discrete_network(ActivationFunctionWrapper::new(|index: usize, value: f64| {
            value + index as f64
        }));
    assert_eq!(network.input_dimension(), 2);
    assert_eq!(network.output_dimension(), 2);
    let mut state = vec![1., 1.];
    network.time_evolution(&mut state, &vec![10., 20.]);
    assert_eq!(state, vec![11., 23.]);
    network.time_evolution(&mut state, &vec![0., 0.]);
    assert_eq!(state, vec![23., 23.]);

    let boxed = Box::new(network);
    assert_eq!(boxed.input_dimension(), 2);
    let mut state = vec![1., 0.];
    boxed.time_evolution(&mut state, &vec![0., 0.]);
    assert_eq!(state, vec![0., 3.]);
}

#[test]
fn leaky_network_blends_the_driven_state_with_its_activation() {
    let adjacency = Matrix::from_vec(2, 2, vec![0., 2., 1., 0.]);
    let network = EchoStateNetworkBuilder::from_adjacency(&adjacency)
        .build_sparse_leaky_integrator_network(
            0.25,
            ActivationFunctionWrapper::new(|_: usize, value: f64| 2.0 * value),
        );
    assert_eq!(network.input_dimension(), 2);
    assert_eq!(network.output_dimension(), 2);
    let mut state = vec![1., 1.];
    network.time_evolution(&mut state, &vec![10., 20.]);
    assert_eq!(state, vec![13.75, 27.5]);
}

#[test]
fn random_network_has_no_link_from_a_node_to_itself() {
    let esn = EchoStateNetworkBuilder::<f64>::random(6, 5)
        .unwrap()
        .build_sparse_discrete_network(ActivationFunctionWrapper::new(|_: usize, v: f64| v));
    assert_eq!(esn.input_dimension(), 6);
    let mut links = 0;
    for node in 0..6 {
        let mut state = vec![0.0; 6];
        state[node] = 1.0;
        esn.time_evolution(&mut state, &vec![0.0; 6]);
        assert_eq!(state[node], 0.0);
        for weight in state {
            assert!(weight.abs() <= 1.0);
            if weight != 0.0 {
                links += 1;
            }
        }
    }
    // Every link off the diagonal is drawn with probability 5 / 5.
    assert_eq!(links, 30);

    let esn = EchoStateNetworkBuilder::<f64>::random(6, 0)
        .unwrap()
        .build_sparse_discrete_network(ActivationFunctionWrapper::new(|_: usize, v: f64| v));
    let mut state = vec![1.0; 6];
    esn.time_evolution(&mut state, &vec![0.0; 6]);
    assert_eq!(state, vec![0.0; 6]);
}

#[test]
fn spectral_radius_scales_the_adjacency_matrix() {
    let adjacency = Matrix::from_vec(2, 2, vec![2., 0., 0., 1.]);
    let mut builder = EchoStateNetworkBuilder::from_adjacency(&adjacency);
    builder.spectral_radius(0.5);
    let esn =
        builder.build_sparse_discrete_network(ActivationFunctionWrapper::new(|_: usize, v: f64| v));
    let mut state = vec![1., 1.];
    esn.time_evolution(&mut state, &vec![0., 0.]);
    assert!((state[0] - 0.5).abs() <= 1e-9);
    assert!((state[1] - 0.25).abs() <= 1e-9);
}
