use neuralnet::vector::{Vector, Dot, Scale};
use neuralnet::NetworkError;

fn vector_of(values: &[f64]) -> Vector {
    let bits: Vec<u64> = values.iter().map(|x| x.to_bits()).collect();
    Vector::from(bits)
}

fn values_of(v: &Vector) -> Vec<f64> {
    v.inner_ref().iter().map(|b| f64::from_bits(*b)).collect()
}

#[test]
fn test_new_is_zero() {
    let v = Vector::new(4);
    assert_eq!(v.len(), 4);
    for x in values_of(&v) {
        assert_eq!(x, 0.0);
    }
}

#[test]
fn test_from_and_len() {
    let v = vector_of(&[1.0, -2.5, 3.25]);
    assert_eq!(v.len(), 3);
    assert_eq!(values_of(&v), vec![1.0, -2.5, 3.25]);
}

#[test]
fn test_add_values() {
    let a = vector_of(&[1.0, 2.0, -4.0]);
    let b = vector_of(&[0.5, 0.25, 1.5]);
    let r = a.add(&b).unwrap();
    assert_eq!(values_of(&r), vec![1.5, 2.25, -2.5]);
}

#[test]
fn test_sub_values() {
    let a = vector_of(&[1.0, 2.0, -4.0]);
    let b = vector_of(&[0.5, 0.25, 1.5]);
    let r = a.sub(&b).unwrap();
    assert_eq!(values_of(&r), vec![0.5, 1.75, -5.5]);
}

#[test]
fn test_add_dimension_mismatch() {
    let a = vector_of(&[1.0, 2.0]);
    let b = vector_of(&[1.0]);
    assert!(matches!(a.add(&b), Err(NetworkError::DimensionMismatch)));
}

#[test]
fn test_sub_dimension_mismatch() {
    let a = vector_of(&[1.0]);
    let b = vector_of(&[1.0, 2.0]);
    assert!(matches!(a.sub(&b), Err(NetworkError::DimensionMismatch)));
}

#[test]
fn test_dot_dimension_mismatch() {
    let a = vector_of(&[1.0, 2.0, 3.0]);
    let b = vector_of(&[1.0, 2.0]);
    assert!(matches!(a.dot(&b), Err(NetworkError::DimensionMismatch)));
}

#[test]
fn test_dot_value() {
    let a = vector_of(&[1.0, 2.0, 3.0]);
    let b = vector_of(&[4.0, 5.0, 6.0]);
    let r = a.dot(&b).unwrap();
    assert_eq!(f64::from_bits(r), 32.0);
}

#[test]
fn test_sub_of_add_restores_left_operand() {
    let a = vector_of(&[0.1, -7.25, 1e10, 0.333]);
    let b = vector_of(&[2.4, 0.125, -3e9, 12.0]);
    let sum = a.add(&b).unwrap();
    let back = sum.sub(&b).unwrap();
    let av = values_of(&a);
    let bv = values_of(&back);
    for i in 0..av.len() {
        assert!((av[i] - bv[i]).abs() <= 1e-6 * av[i].abs().max(1.0));
    }
}

#[test]
fn test_dot_commutes() {
    let a = vector_of(&[1.5, -2.25, 0.875, 9.0]);
    let b = vector_of(&[-0.5, 4.125, 2.0, 0.0625]);
    let ab = a.dot(&b).unwrap();
    let ba = b.dot(&a).unwrap();
    assert_eq!(ab, ba);
}

#[test]
fn test_scale_values() {
    let v = vector_of(&[1.5, -2.0, 0.0]);
    let r = v.scale(2.0f64.to_bits());
    assert_eq!(values_of(&r), vec![3.0, -4.0, 0.0]);
}

#[test]
fn test_scale_by_one_is_identity() {
    let v = vector_of(&[0.1, -7.25, 1e300, -0.0, 3.5e-12]);
    let r = v.scale(1.0f64.to_bits());
    assert_eq!(v.inner_ref(), r.inner_ref());
}

#[test]
fn test_scale_trait_matches_method() {
    let v = vector_of(&[2.0, -3.0]);
    let via_trait = Scale::scale(&v, 0.5f64.to_bits());
    assert_eq!(values_of(&via_trait), vec![1.0, -1.5]);
}

#[test]
fn test_dot_trait_matches_method() {
    let a = vector_of(&[2.0, -3.0]);
    let b = vector_of(&[1.0, 1.0]);
    let r = Dot::dot(&a, &b).unwrap();
    assert_eq!(f64::from_bits(r), -1.0);
}

#[test]
fn test_clone_copies_contents() {
    let v = vector_of(&[1.0, 2.0]);
    let c = v.clone();
    assert_eq!(v.inner_ref(), c.inner_ref());
}
