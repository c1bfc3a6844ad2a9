use neuralnet::activation::{ActivationFunction, Sigmoid};
use neuralnet::source::{DataSource, VecDataSource};
use neuralnet::train::{backpropagate, StochasticGradientDescent, Trainer};
use neuralnet::vector::Vector;
use neuralnet::{Network, NetworkError};

fn vector_of(values: &[f64]) -> Vector {
    let bits: Vec<u64> = values.iter().map(|x| x.to_bits()).collect();
    Vector::from(bits)
}

fn values_of(v: &Vector) -> Vec<f64> {
    v.inner_ref().iter().map(|b| f64::from_bits(*b)).collect()
}

fn network_with(
    configuration: Vec<usize>,
    biases: Vec<Vec<f64>>,
    weights: Vec<Vec<Vec<f64>>>,
) -> Network<Sigmoid> {
    let mut net = Network::new(configuration, Sigmoid::init());
    let bias_matrix: Vec<Vector> = biases.iter().map(|b| vector_of(b)).collect();
    let weight_matrix: Vec<Vec<Vector>> = weights
        .iter()
        .map(|rows| rows.iter().map(|r| vector_of(r)).collect())
        .collect();
    net.set_parameters(bias_matrix, weight_matrix);
    net
}

fn source_of(pairs: &[(Vec<f64>, Vec<f64>)]) -> VecDataSource {
    let items: Vec<(Vector, Vector)> = pairs
        .iter()
        .map(|(i, t)| (vector_of(i), vector_of(t)))
        .collect();
    VecDataSource::from_pairs(items)
}

fn mse_loss(net: &Network<Sigmoid>, input: &[f64], target: &[f64]) -> f64 {
    let out = net.feed(vector_of(input)).unwrap();
    let ov = values_of(&out);
    let mut loss = 0.0;
    for i in 0..ov.len() {
        let d = ov[i] - target[i];
        loss += 0.5 * d * d;
    }
    loss
}

#[test]
fn test_worked_single_step_scenario() {
    let mut net = network_with(vec![1, 1], vec![vec![0.0]], vec![vec![vec![0.5]]]);
    let sgd = StochasticGradientDescent::new(0.1f64.to_bits(), 1);
    let mut data = source_of(&[(vec![1.0], vec![1.0])]);
    sgd.train_inner(&mut net, &mut data).unwrap();
    let w = f64::from_bits(net.weight(1, 0, 0));
    assert!((w - 0.5089).abs() < 1e-4);
    // the bias moves by the same error term, scaled by an input of one
    let b = f64::from_bits(net.bias(1, 0));
    assert!((b - 0.0089).abs() < 1e-4);
}

#[test]
fn test_batch_average_matches_single_sample_update() {
    let mut net1 = network_with(vec![1, 1], vec![vec![0.0]], vec![vec![vec![0.5]]]);
    let sgd1 = StochasticGradientDescent::new(0.1f64.to_bits(), 1);
    let mut data1 = source_of(&[(vec![1.0], vec![1.0])]);
    sgd1.train_inner(&mut net1, &mut data1).unwrap();

    // two identical samples averaged over a batch of two give the same step
    let mut net2 = network_with(vec![1, 1], vec![vec![0.0]], vec![vec![vec![0.5]]]);
    let sgd2 = StochasticGradientDescent::new(0.1f64.to_bits(), 2);
    let mut data2 = source_of(&[(vec![1.0], vec![1.0]), (vec![1.0], vec![1.0])]);
    sgd2.train_inner(&mut net2, &mut data2).unwrap();

    let w1 = f64::from_bits(net1.weight(1, 0, 0));
    let w2 = f64::from_bits(net2.weight(1, 0, 0));
    assert!((w1 - w2).abs() < 1e-12);
}

#[test]
fn test_training_strictly_decreases_loss_on_identity_mapping() {
    let mut net = Network::new(vec![1, 1], Sigmoid::init());
    let sgd = StochasticGradientDescent::new(0.8f64.to_bits(), 1);
    let mut last = mse_loss(&net, &[0.8], &[0.8]);
    for _ in 0..8 {
        let mut data = source_of(&[(vec![0.8], vec![0.8])]);
        sgd.train_inner(&mut net, &mut data).unwrap();
        let now = mse_loss(&net, &[0.8], &[0.8]);
        assert!(now < last);
        last = now;
    }
}

#[test]
fn test_gradients_match_finite_differences() {
    let configuration = vec![2usize, 2, 1];
    let biases = vec![vec![0.05, -0.05], vec![0.1]];
    let weights = vec![
        vec![vec![0.1, 0.2], vec![0.3, -0.1]],
        vec![vec![0.2, -0.3]],
    ];
    let input = vec![0.5, -0.3];
    let target = vec![0.7];
    let net = network_with(configuration.clone(), biases.clone(), weights.clone());
    let (nabla_b, nabla_w) = backpropagate(
        (vector_of(&input), vector_of(&target)),
        &net,
    )
    .unwrap();
    let h = 1e-5;

    // weight gradients against a central finite difference of the loss
    for l in 0..weights.len() {
        for j in 0..weights[l].len() {
            for i in 0..weights[l][j].len() {
                let mut plus = weights.clone();
                plus[l][j][i] += h;
                let mut minus = weights.clone();
                minus[l][j][i] -= h;
                let net_plus = network_with(configuration.clone(), biases.clone(), plus);
                let net_minus = network_with(configuration.clone(), biases.clone(), minus);
                let numeric = (mse_loss(&net_plus, &input, &target)
                    - mse_loss(&net_minus, &input, &target)) / (2.0 * h);
                let analytic = values_of(&nabla_w[l][j])[i];
                assert!((numeric - analytic).abs() < 1e-4);
            }
        }
    }

    // bias gradients the same way
    for l in 0..biases.len() {
        for j in 0..biases[l].len() {
            let mut plus = biases.clone();
            plus[l][j] += h;
            let mut minus = biases.clone();
            minus[l][j] -= h;
            let net_plus = network_with(configuration.clone(), plus, weights.clone());
            let net_minus = network_with(configuration.clone(), minus, weights.clone());
            let numeric = (mse_loss(&net_plus, &input, &target)
                - mse_loss(&net_minus, &input, &target)) / (2.0 * h);
            let analytic = values_of(&nabla_b[l])[j];
            assert!((numeric - analytic).abs() < 1e-4);
        }
    }
}

#[test]
fn test_backpropagate_rejects_wrong_lengths() {
    let net = Network::new(vec![2, 1], Sigmoid::init());
    let r = backpropagate((vector_of(&[1.0]), vector_of(&[1.0])), &net);
    assert!(matches!(r, Err(NetworkError::DimensionMismatch)));
    let r2 = backpropagate((vector_of(&[1.0, 2.0]), vector_of(&[1.0, 2.0])), &net);
    assert!(matches!(r2, Err(NetworkError::DimensionMismatch)));
}

#[test]
fn test_trailing_partial_batch_is_dropped() {
    let mut net = Network::new(vec![1, 1], Sigmoid::init());
    let sgd = StochasticGradientDescent::new(0.1f64.to_bits(), 2);
    let mut data = source_of(&[
        (vec![1.0], vec![1.0]),
        (vec![0.5], vec![0.5]),
        (vec![0.25], vec![0.25]),
    ]);
    sgd.train_inner(&mut net, &mut data).unwrap();
    // one full batch of two was drawn; the trailing pair stays unread
    assert_eq!(data.len(), 1);
}

#[test]
fn test_bad_sample_aborts_batch_without_update() {
    let mut net = network_with(vec![1, 1], vec![vec![0.0]], vec![vec![vec![0.5]]]);
    let sgd = StochasticGradientDescent::new(0.1f64.to_bits(), 2);
    let mut data = source_of(&[
        (vec![1.0], vec![1.0]),
        (vec![1.0, 2.0], vec![1.0]),
    ]);
    let r = sgd.train_inner(&mut net, &mut data);
    assert!(matches!(r, Err(NetworkError::DimensionMismatch)));
    assert_eq!(f64::from_bits(net.weight(1, 0, 0)), 0.5);
    assert_eq!(f64::from_bits(net.bias(1, 0)), 0.0);
}

#[test]
fn test_train_through_trainer_trait() {
    let mut net = network_with(vec![1, 1], vec![vec![0.0]], vec![vec![vec![0.5]]]);
    let mut sgd = StochasticGradientDescent::new(0.1f64.to_bits(), 1);
    let mut data = source_of(&[(vec![1.0], vec![1.0])]);
    Trainer::train(&mut sgd, &mut net, &mut data).unwrap();
    let w = f64::from_bits(net.weight(1, 0, 0));
    assert!((w - 0.5089).abs() < 1e-4);
}

#[test]
fn test_sgd_new_keeps_hyperparameters() {
    let sgd = StochasticGradientDescent::new(0.25f64.to_bits(), 7);
    assert_eq!(f64::from_bits(sgd.eta), 0.25);
    assert_eq!(sgd.subsample_size, 7);
}

#[test]
fn test_backpropagate_exact_single_neuron() {
    let net = network_with(vec![1, 1], vec![vec![0.0]], vec![vec![vec![0.5]]]);
    let s = Sigmoid::init();
    let z = vector_of(&[0.5]);
    let a = values_of(&s.activation(&z))[0];
    let d = values_of(&s.derivative(&z))[0];
    let expected_delta = (a - 1.0) * d;
    let (nabla_b, nabla_w) = backpropagate(
        (vector_of(&[1.0]), vector_of(&[1.0])),
        &net,
    )
    .unwrap();
    assert_eq!(values_of(&nabla_b[0])[0], expected_delta);
    assert_eq!(values_of(&nabla_w[0][0])[0], 1.0 * expected_delta);
}
