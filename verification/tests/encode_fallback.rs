use hector::encode::fallback::{byte_to_hex, encode, encode_array, encode_to_slice, nibble_to_hex};
use hector::encode::Error;

#[test]
fn nibble_always_valid() {
    for byte in 0..=0xf {
        assert!(nibble_to_hex::<false>(byte).is_ascii_hexdigit());
        assert!(nibble_to_hex::<true>(byte).is_ascii_hexdigit());
    }
}

#[test]
fn byte_always_valid() {
    for byte in 0..=0xff {
        let [high, low] = byte_to_hex::<false>(byte);
        assert!(high.is_ascii_hexdigit());
        assert!(low.is_ascii_hexdigit());

        let [high, low] = byte_to_hex::<true>(byte);
        assert!(high.is_ascii_hexdigit());
        assert!(low.is_ascii_hexdigit());
    }
}

#[test]
fn encode_all_2_byte_permutations() {
    for v in u16::MIN..=u16::MAX {
        let expected = format!("{v:04x}");
        let actual = encode::<false>(&v.to_be_bytes());

        assert_eq!(expected, actual);
    }
}

#[test]
fn encode_slice_matches_encode() {
    for v in u16::MIN..=u16::MAX {
        let expected = encode::<false>(&v.to_be_bytes());
        let mut buf = [0; 4];
        let actual = &*encode_to_slice::<false>(&v.to_be_bytes(), &mut buf).unwrap();

        assert_eq!(expected, actual);
    }
}

#[test]
fn encode_upper_all_2_byte_permutations() {
    for v in u16::MIN..=u16::MAX {
        let expected = format!("{v:04X}");
        assert_eq!(expected, encode::<true>(&v.to_be_bytes()));

        let mut buf = [0; 4];
        assert_eq!(
            encode_to_slice::<true>(&v.to_be_bytes(), &mut buf),
            Ok(expected.as_str())
        );
        assert_eq!(&buf, expected.as_bytes());
    }
}

#[test]
fn nibble_maps_to_exact_character() {
    let lower = b"0123456789abcdef";
    let upper = b"0123456789ABCDEF";
    for nibble in 0..16u8 {
        assert_eq!(nibble_to_hex::<false>(nibble), lower[nibble as usize]);
        assert_eq!(nibble_to_hex::<true>(nibble), upper[nibble as usize]);
    }
}

#[test]
fn byte_maps_to_high_then_low() {
    assert_eq!(byte_to_hex::<false>(0x00), [b'0', b'0']);
    assert_eq!(byte_to_hex::<false>(0x1f), [b'1', b'f']);
    assert_eq!(byte_to_hex::<true>(0x1f), [b'1', b'F']);
    assert_eq!(byte_to_hex::<false>(0xa0), [b'a', b'0']);
    assert_eq!(byte_to_hex::<true>(0xa0), [b'A', b'0']);
    assert_eq!(byte_to_hex::<false>(0xff), [b'f', b'f']);
    assert_eq!(byte_to_hex::<true>(0xff), [b'F', b'F']);
}

#[test]
fn output_case_is_never_mixed() {
    let all: Vec<u8> = (u8::MIN..=u8::MAX).collect();
    let lower = encode::<false>(&all);
    let upper = encode::<true>(&all);
    assert_eq!(lower.len(), 512);
    assert_eq!(upper.len(), 512);
    assert!(lower.bytes().all(|c| c.is_ascii_digit() || c.is_ascii_lowercase()));
    assert!(upper.bytes().all(|c| c.is_ascii_digit() || c.is_ascii_uppercase()));
    assert_eq!(lower.to_ascii_uppercase(), upper);
}

#[test]
fn slice_of_wrong_size_is_refused_and_left_alone() {
    let mut small = [7u8; 5];
    assert_eq!(encode_to_slice::<false>(&[1, 2, 3], &mut small), Err(Error));
    assert_eq!(small, [7u8; 5]);

    let mut large = [7u8; 7];
    assert_eq!(encode_to_slice::<true>(&[1, 2, 3], &mut large), Err(Error));
    assert_eq!(large, [7u8; 7]);

    let mut none: [u8; 0] = [];
    assert_eq!(encode_to_slice::<false>(&[1], &mut none), Err(Error));
}

#[test]
fn array_encoding_fills_the_array() {
    let mut storage = [0u8; 4];
    assert_eq!(
        encode_array::<2, 4, false>(&[0xbe, 0xef], &mut storage),
        "beef"
    );
    assert_eq!(&storage, b"beef");
    assert_eq!(
        encode_array::<2, 4, true>(&[0xbe, 0xef], &mut storage),
        "BEEF"
    );
    assert_eq!(&storage, b"BEEF");
}
