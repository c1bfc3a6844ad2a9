use neuralnet::idx::{one_hot, parse_idx_header, u8_to_u32};

#[test]
fn test_u8_to_u32_big_endian() {
    assert_eq!(u8_to_u32(&[0x01, 0x02, 0x03, 0x04]), 0x0102_0304);
    assert_eq!(u8_to_u32(&[0x00, 0x00, 0x00, 0x2a]), 42);
    assert_eq!(u8_to_u32(&[0xff, 0xff, 0xff, 0xff]), u32::MAX);
    assert_eq!(u8_to_u32(&[0x80, 0x00, 0x00, 0x01, 0x55]), 0x8000_0001);
}

#[test]
fn test_parse_idx_header_reads_dimensions() {
    let bytes = [
        0x00, 0x00, 0x08, 0x02, // reserved, element type, two dimensions
        0x00, 0x00, 0x00, 0x03, // first dimension: 3
        0x00, 0x00, 0x01, 0x00, // second dimension: 256
    ];
    let h = parse_idx_header(&bytes).unwrap();
    assert_eq!(h.element_type, 0x08);
    assert_eq!(h.dimension_sizes, vec![3, 256]);
}

#[test]
fn test_parse_idx_header_allows_trailing_payload() {
    let bytes = [0x00, 0x00, 0x08, 0x01, 0x00, 0x00, 0x00, 0x02, 0xaa, 0xbb];
    let h = parse_idx_header(&bytes).unwrap();
    assert_eq!(h.element_type, 0x08);
    assert_eq!(h.dimension_sizes, vec![2]);
}

#[test]
fn test_parse_idx_header_rejects_short_input() {
    assert!(parse_idx_header(&[]).is_none());
    assert!(parse_idx_header(&[0x00, 0x00, 0x08]).is_none());
    // the dimension-count byte asks for more sizes than the bytes hold
    assert!(parse_idx_header(&[0x00, 0x00, 0x08, 0x02, 0x00, 0x00, 0x00, 0x03]).is_none());
}

#[test]
fn test_one_hot_marks_single_index() {
    let v = one_hot(4);
    assert_eq!(v.len(), 10);
    let values: Vec<f64> = v.inner_ref().iter().map(|b| f64::from_bits(*b)).collect();
    for i in 0..10 {
        if i == 4 {
            assert_eq!(values[i], 1.0);
        } else {
            assert_eq!(values[i], 0.0);
        }
    }
}
