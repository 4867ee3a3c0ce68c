use fuser_async::helpers::{binary_size, keep_decoded, to_binary};

#[test]
fn decodes_into_a_buffer_of_the_estimated_size() {
    // seven symbols: two groups of four, so six bytes; five are decoded
    assert_eq!(to_binary(Some("SGVsbG8")), Some(b"Hello\0".to_vec()));
}

#[test]
fn decodes_a_whole_number_of_groups_without_zeros_behind() {
    assert_eq!(to_binary(Some("SGVsbG8h")), Some(b"Hello!".to_vec()));
    assert_eq!(to_binary(Some("AAEC")), Some(vec![0, 1, 2]));
}

#[test]
fn two_symbols_decode_to_one_byte_and_two_zeros() {
    assert_eq!(to_binary(Some("/w")), Some(vec![0xff, 0, 0]));
}

#[test]
fn empty_text_and_empty_cell_give_no_bytes() {
    assert_eq!(to_binary(Some("")), Some(Vec::new()));
    assert_eq!(to_binary(None), Some(Vec::new()));
}

#[test]
fn what_is_no_base64_gives_nothing() {
    assert_eq!(to_binary(Some("not base64!")), None);
    assert_eq!(to_binary(Some("SGVsbG8=")), None);
    assert_eq!(to_binary(Some("A")), None);
}

#[test]
fn a_decoding_keeps_its_buffer_or_nothing() {
    assert_eq!(keep_decoded(vec![1, 2, 3], Some(2)), Some(vec![1, 2, 3]));
    assert_eq!(keep_decoded(vec![1, 2, 3], None), None);
}

#[test]
fn sizes_of_cells() {
    let cells = vec![Some(vec![1, 2, 3]), None, Some(Vec::new())];
    assert_eq!(binary_size(&cells), vec![Some(3), None, Some(0)]);
    assert!(binary_size(&Vec::new()).is_empty());
}
