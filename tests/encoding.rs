use vector_commitment::encoding::{convert_key_value, to_binary, VcError};

#[test]
fn test_to_binary() {
    let elem: u8 = 6;
    let bv = to_binary(elem);
    assert_eq!(bv, vec![false, false, false, false, false, true, true, false]);
}

#[test]
fn test_convert() {
    let keys = vec![0, 1];
    let values = vec![4, 7];
    let (binary_vec, indices) = convert_key_value(&keys, &values).unwrap();
    assert_eq!(binary_vec, vec![false, false, false, false, false, true, false, false, false, false, false, false,
        false, true, true, true]);
    assert_eq!(indices, vec![0, 1, 2, 3, 4, 5, 6, 7, 8, 9, 10, 11, 12, 13, 14, 15]);
}

#[test]
fn to_binary_extremes() {
    assert_eq!(to_binary(0), vec![false; 8]);
    assert_eq!(to_binary(255), vec![true; 8]);
    assert_eq!(to_binary(0b1000_0001), vec![true, false, false, false, false, false, false, true]);
}

#[test]
fn convert_empty() {
    let (bits, indices) = convert_key_value(&[], &[]).unwrap();
    assert!(bits.is_empty());
    assert!(indices.is_empty());
}

#[test]
fn convert_length_mismatch() {
    assert_eq!(convert_key_value(&[0, 1], &[4]), Err(VcError::InvalidInput));
    assert_eq!(convert_key_value(&[0], &[4, 7]), Err(VcError::InvalidInput));
}

#[test]
fn convert_keeps_input_order() {
    let (bits, indices) = convert_key_value(&[3, 0], &[1, 128]).unwrap();
    let mut want_bits = vec![false; 7];
    want_bits.push(true);
    want_bits.push(true);
    want_bits.extend(vec![false; 7]);
    assert_eq!(bits, want_bits);
    let want_indices: Vec<usize> = (24..32).chain(0..8).collect();
    assert_eq!(indices, want_indices);
}

#[test]
fn convert_largest_key() {
    let key = usize::MAX / 8;
    let (bits, indices) = convert_key_value(&[key], &[5]).unwrap();
    assert_eq!(bits, to_binary(5));
    assert_eq!(indices[0], key * 8);
    assert_eq!(indices[7], usize::MAX);
}

#[test]
fn convert_twice_gives_same_output() {
    let keys = [2, 9, 2];
    let values = [200, 17, 3];
    assert_eq!(convert_key_value(&keys, &values), convert_key_value(&keys, &values));
}
