use neuralnet::activation::{ActivationFunction, Sigmoid};
use neuralnet::vector::Vector;

fn vector_of(values: &[f64]) -> Vector {
    let bits: Vec<u64> = values.iter().map(|x| x.to_bits()).collect();
    Vector::from(bits)
}

fn values_of(v: &Vector) -> Vec<f64> {
    v.inner_ref().iter().map(|b| f64::from_bits(*b)).collect()
}

#[test]
fn test_sigmoid_at_zero_is_exactly_half() {
    let s = Sigmoid::init();
    let z = vector_of(&[0.0, 0.0, 0.0]);
    let a = s.activation(&z);
    for x in values_of(&a) {
        assert_eq!(x, 0.5);
    }
}

#[test]
fn test_sigmoid_value() {
    let s = Sigmoid::init();
    let a = s.activation(&vector_of(&[0.5]));
    let got = values_of(&a)[0];
    assert!((got - 0.6224593312018546).abs() < 1e-12);
}

#[test]
fn test_sigmoid_is_strictly_inside_unit_interval() {
    let s = Sigmoid::init();
    let z = vector_of(&[-30.0, -8.5, -1.0, -1e-9, 1e-9, 0.25, 4.0, 17.5, 30.0]);
    let a = s.activation(&z);
    for x in values_of(&a) {
        assert!(x > 0.0);
        assert!(x < 1.0);
    }
}

#[test]
fn test_sigmoid_monotone_on_samples() {
    let s = Sigmoid::init();
    let a = s.activation(&vector_of(&[-2.0, -1.0, 0.0, 1.0, 2.0]));
    let v = values_of(&a);
    for i in 1..v.len() {
        assert!(v[i - 1] < v[i]);
    }
}

#[test]
fn test_derivative_is_activation_times_one_minus_activation() {
    let s = Sigmoid::init();
    let z = vector_of(&[-3.0, -0.5, 0.0, 0.5, 3.0, 11.0]);
    let a = s.activation(&z);
    let d = s.derivative(&z);
    let av = values_of(&a);
    let dv = values_of(&d);
    for i in 0..av.len() {
        let expected = av[i] * (1.0 - av[i]);
        assert_eq!(dv[i], expected);
    }
}

#[test]
fn test_derivative_at_zero_is_quarter() {
    let s = Sigmoid::init();
    let d = s.derivative(&vector_of(&[0.0]));
    assert_eq!(values_of(&d)[0], 0.25);
}
