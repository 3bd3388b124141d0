use intent_bridge::encoding::{array_eq, copy_array, push_be, push_be_i128, read_u128};

#[test]
fn big_endian_numbers_are_appended() {
    let mut buf: Vec<u8> = vec![7];
    push_be(&mut buf, 0x0102_0304, 8);
    assert_eq!(buf, vec![7, 0, 0, 0, 0, 1, 2, 3, 4]);
    push_be(&mut buf, 0xffff_01, 1);
    assert_eq!(buf, vec![7, 0, 0, 0, 0, 1, 2, 3, 4, 1]);
}

#[test]
fn signed_numbers_are_appended_in_twos_complement() {
    for x in [0, 1, -1, 600, -600, i128::MAX, i128::MIN, i128::MIN + 1] {
        let mut buf: Vec<u8> = Vec::new();
        push_be_i128(&mut buf, x);
        assert_eq!(buf, x.to_be_bytes().to_vec());
    }
}

#[test]
fn what_was_written_is_read_back() {
    for x in [0u128, 1, 255, 256, 0x0123_4567_89ab_cdef, u128::MAX] {
        let mut buf: Vec<u8> = vec![9, 9, 9];
        push_be(&mut buf, x, 16);
        assert_eq!(read_u128(&buf, 3), x);
    }
}

#[test]
fn arrays_are_copied_and_compared() {
    let bytes = [1u8, 2, 3, 4, 5];
    let out: [u8; 3] = copy_array(&bytes, 1);
    assert_eq!(out, [2, 3, 4]);
    assert!(array_eq(&out, &[2, 3, 4]));
    assert!(!array_eq(&out, &[2, 3, 5]));
}
