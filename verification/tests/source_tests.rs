use neuralnet::source::{DataSource, VecDataSource};
use neuralnet::vector::Vector;

fn vector_of(values: &[f64]) -> Vector {
    let bits: Vec<u64> = values.iter().map(|x| x.to_bits()).collect();
    Vector::from(bits)
}

fn values_of(v: &Vector) -> Vec<f64> {
    v.inner_ref().iter().map(|b| f64::from_bits(*b)).collect()
}

#[test]
fn test_len_counts_remaining_pairs() {
    let mut d = VecDataSource::from_pairs(vec![
        (vector_of(&[1.0]), vector_of(&[2.0])),
        (vector_of(&[3.0]), vector_of(&[4.0])),
    ]);
    assert_eq!(d.len(), 2);
    d.next().unwrap();
    assert_eq!(d.len(), 1);
    d.next().unwrap();
    assert_eq!(d.len(), 0);
}

#[test]
fn test_next_hands_pairs_out_in_order() {
    let mut d = VecDataSource::from_pairs(vec![
        (vector_of(&[1.0]), vector_of(&[10.0])),
        (vector_of(&[2.0]), vector_of(&[20.0])),
    ]);
    let (i1, t1) = d.next().unwrap();
    assert_eq!(values_of(&i1), vec![1.0]);
    assert_eq!(values_of(&t1), vec![10.0]);
    let (i2, t2) = d.next().unwrap();
    assert_eq!(values_of(&i2), vec![2.0]);
    assert_eq!(values_of(&t2), vec![20.0]);
    assert!(d.next().is_none());
}

#[test]
fn test_empty_source_is_exhausted() {
    let mut d = VecDataSource::from_pairs(Vec::new());
    assert_eq!(d.len(), 0);
    assert!(d.next().is_none());
}
