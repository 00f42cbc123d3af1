use afrs::searchable::{big_endian_bytes, Searchable};

#[test]
fn numbers_are_searched_most_significant_byte_first() {
    assert_eq!(0x12u8.get_value("any"), Some(vec![0x12]));
    assert_eq!(0x1234u16.get_value("any"), Some(vec![0x12, 0x34]));
    assert_eq!(0x12345678u32.get_value("any"), Some(vec![0x12, 0x34, 0x56, 0x78]));
    assert_eq!(
        0x0102030405060708u64.get_value("any"),
        Some(vec![0x01, 0x02, 0x03, 0x04, 0x05, 0x06, 0x07, 0x08])
    );
    assert_eq!(
        0x0102030405060708090a0b0c0d0e0f10u128.get_value("any"),
        Some(vec![
            0x01, 0x02, 0x03, 0x04, 0x05, 0x06, 0x07, 0x08, 0x09, 0x0a, 0x0b, 0x0c, 0x0d, 0x0e,
            0x0f, 0x10
        ])
    );
}

#[test]
fn numbers_agree_with_the_standard_byte_order() {
    for x in [0u32, 1, 255, 256, 65535, 65536, 0xdeadbeef, u32::MAX] {
        assert_eq!(x.get_value(""), Some(x.to_be_bytes().to_vec()));
    }
    for x in [0u64, 1, 0x0123456789abcdef, u64::MAX] {
        assert_eq!(x.get_value(""), Some(x.to_be_bytes().to_vec()));
    }
    for x in [0u128, 1, u128::MAX, 1u128 << 127] {
        assert_eq!(x.get_value(""), Some(x.to_be_bytes().to_vec()));
    }
    for x in [0u16, 1, 0xff00, u16::MAX] {
        assert_eq!(x.get_value(""), Some(x.to_be_bytes().to_vec()));
    }
}

#[test]
fn texts_are_searched_as_their_bytes() {
    assert_eq!("abc".get_value("any"), Some(b"abc".to_vec()));
    assert_eq!("h\u{e9}".to_string().get_value("any"), Some(vec![0x68, 0xc3, 0xa9]));
    assert_eq!("".get_value("any"), Some(vec![]));
}

#[test]
fn big_endian_bytes_of_a_width() {
    assert_eq!(big_endian_bytes(0x010203, 0), Vec::<u8>::new());
    assert_eq!(big_endian_bytes(0x010203, 2), vec![0x02, 0x03]);
    assert_eq!(big_endian_bytes(0x010203, 5), vec![0, 0, 1, 2, 3]);
}
