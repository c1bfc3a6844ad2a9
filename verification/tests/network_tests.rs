use neuralnet::activation::{ActivationFunction, Sigmoid};
use neuralnet::vector::Vector;
use neuralnet::{Network, NetworkError};

fn vector_of(values: &[f64]) -> Vector {
    let bits: Vec<u64> = values.iter().map(|x| x.to_bits()).collect();
    Vector::from(bits)
}

fn values_of(v: &Vector) -> Vec<f64> {
    v.inner_ref().iter().map(|b| f64::from_bits(*b)).collect()
}

fn network_with(
    configuration: Vec<usize>,
    biases: Vec<Vec<f64>>,
    weights: Vec<Vec<Vec<f64>>>,
) -> Network<Sigmoid> {
    let mut net = Network::new(configuration, Sigmoid::init());
    let bias_matrix: Vec<Vector> = biases.iter().map(|b| vector_of(b)).collect();
    let weight_matrix: Vec<Vec<Vector>> = weights
        .iter()
        .map(|rows| rows.iter().map(|r| vector_of(r)).collect())
        .collect();
    net.set_parameters(bias_matrix, weight_matrix);
    net
}

#[test]
fn test_zero_network_feeds_half_regardless_of_input() {
    let net = Network::new(vec![2, 3, 1], Sigmoid::init());
    let out1 = net.feed(vector_of(&[0.7, -1.3])).unwrap();
    let out2 = net.feed(vector_of(&[100.0, 42.0])).unwrap();
    assert_eq!(values_of(&out1), vec![0.5]);
    assert_eq!(values_of(&out2), vec![0.5]);
}

#[test]
fn test_feed_rejects_wrong_input_length() {
    let net = Network::new(vec![2, 3, 1], Sigmoid::init());
    let r = net.feed(vector_of(&[1.0, 2.0, 3.0]));
    assert!(matches!(r, Err(NetworkError::DimensionMismatch)));
    let r2 = net.feed(vector_of(&[1.0]));
    assert!(matches!(r2, Err(NetworkError::DimensionMismatch)));
}

#[test]
fn test_feed_layer_rejects_layer_zero() {
    let net = Network::new(vec![2, 3, 1], Sigmoid::init());
    let r = net.feed_layer(&vector_of(&[1.0, 2.0]), 0);
    assert!(matches!(r, Err(NetworkError::InvalidLayer)));
}

#[test]
fn test_feed_layer_rejects_layer_past_end() {
    let net = Network::new(vec![2, 3, 1], Sigmoid::init());
    let r = net.feed_layer(&vector_of(&[1.0]), 3);
    assert!(matches!(r, Err(NetworkError::InvalidLayer)));
}

#[test]
fn test_feed_layer_rejects_wrong_input_length() {
    let net = Network::new(vec![2, 3, 1], Sigmoid::init());
    let r = net.feed_layer(&vector_of(&[1.0, 2.0, 3.0]), 1);
    assert!(matches!(r, Err(NetworkError::DimensionMismatch)));
}

#[test]
fn test_feed_layer_returns_preactivation_and_activation() {
    let net = network_with(vec![1, 1], vec![vec![0.0]], vec![vec![vec![0.5]]]);
    let (z, a) = net.feed_layer(&vector_of(&[1.0]), 1).unwrap();
    assert_eq!(values_of(&z), vec![0.5]);
    let expected = 1.0 / (1.0 + (-0.5f64).exp());
    assert!((values_of(&a)[0] - expected).abs() < 1e-12);
}

#[test]
fn test_feed_with_weights_and_bias() {
    let net = network_with(vec![2, 1], vec![vec![0.5]], vec![vec![vec![1.0, 1.0]]]);
    let out = net.feed(vector_of(&[1.0, 1.5])).unwrap();
    let expected = 1.0 / (1.0 + (-3.0f64).exp());
    assert!((values_of(&out)[0] - expected).abs() < 1e-12);
}

#[test]
fn test_parameter_accessors() {
    let net = network_with(
        vec![2, 2],
        vec![vec![0.25, -0.5]],
        vec![vec![vec![0.1, 0.2], vec![0.3, -0.4]]],
    );
    assert_eq!(f64::from_bits(net.bias(1, 0)), 0.25);
    assert_eq!(f64::from_bits(net.bias(1, 1)), -0.5);
    assert_eq!(f64::from_bits(net.weight(1, 0, 0)), 0.1);
    assert_eq!(f64::from_bits(net.weight(1, 0, 1)), 0.2);
    assert_eq!(f64::from_bits(net.weight(1, 1, 0)), 0.3);
    assert_eq!(f64::from_bits(net.weight(1, 1, 1)), -0.4);
}

#[test]
fn test_new_network_is_all_zero() {
    let net = Network::new(vec![3, 2], Sigmoid::init());
    for j in 0..2 {
        assert_eq!(f64::from_bits(net.bias(1, j)), 0.0);
        for i in 0..3 {
            assert_eq!(f64::from_bits(net.weight(1, j, i)), 0.0);
        }
    }
}

#[test]
fn test_feed_matches_reference_forward_pass() {
    let weights = vec![
        vec![vec![0.4, -0.6], vec![1.2, 0.3], vec![-0.7, 0.9]],
        vec![vec![0.5, -0.25, 0.75], vec![-1.0, 0.1, 0.6]],
    ];
    let biases = vec![vec![0.1, -0.2, 0.3], vec![0.05, -0.15]];
    let input = vec![0.9, -0.4];
    let net = network_with(vec![2, 3, 2], biases.clone(), weights.clone());
    let out = values_of(&net.feed(vector_of(&input)).unwrap());

    // the same forward pass, written out in plain doubles
    let sigmoid = |z: f64| 1.0 / (1.0 + (-z).exp());
    let mut cur = input.clone();
    for l in 0..weights.len() {
        let mut next = Vec::new();
        for j in 0..weights[l].len() {
            let mut z = 0.0;
            for i in 0..cur.len() {
                z += weights[l][j][i] * cur[i];
            }
            z += biases[l][j];
            next.push(sigmoid(z));
        }
        cur = next;
    }
    for j in 0..cur.len() {
        assert!((out[j] - cur[j]).abs() < 1e-12);
    }
}
