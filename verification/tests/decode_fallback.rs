use hector::decode::fallback::{decode, decode_to_slice, validate_hex};
use hector::decode::Error;

fn hex_chars() -> impl Iterator<Item = u8> {
    (b'0'..=b'9').chain(b'A'..=b'F').chain(b'a'..=b'f')
}

#[test]
fn all_pairs_valid_hex() {
    for high in hex_chars() {
        for low in hex_chars() {
            let nibbles = [high, low];
            assert!(validate_hex(&nibbles).is_ok());
        }
    }
}

#[test]
fn invalid_hex_properly_invalid() {
    let iter = (u8::MIN..=u8::MAX).filter(|it| !it.is_ascii_hexdigit());

    for a in iter.clone() {
        for b in hex_chars() {
            assert_eq!(
                Err(Error::InvalidHex {
                    offset: 0,
                    value: a
                }),
                validate_hex(&[a, b]),
                "high: {a:#02x}, low: {b:#02x}"
            );

            assert_eq!(
                Err(Error::InvalidHex {
                    offset: 1,
                    value: a
                }),
                validate_hex(&[b, a]),
                "high: {b:#02x}, low: {a:#02x}"
            );
        }
    }
}

#[test]
fn decode_all_valid_2_byte_permutations() {
    for value in u16::MIN..=u16::MAX {
        // lower
        let input = format!("{value:04x}");

        let output = decode(input.as_bytes()).unwrap();
        let output: [u8; 2] = output.try_into().unwrap();
        assert_eq!(value.to_be_bytes(), output);

        // upper
        let input = format!("{value:04X}");

        let output = decode(input.as_bytes()).unwrap();
        let output: [u8; 2] = output.try_into().unwrap();
        assert_eq!(value.to_be_bytes(), output);
    }
}

#[test]
fn decode_slice_matches_decode() {
    for value in u16::MIN..=u16::MAX {
        // lower
        let input = format!("{value:04x}");

        let a = decode(input.as_bytes()).unwrap();
        let mut b = [0; 2];
        let b = decode_to_slice(input.as_bytes(), &mut b).unwrap();

        assert_eq!(a, b);

        // upper
        let input = format!("{value:04x}");

        let a = decode(input.as_bytes()).unwrap();
        let mut b = [0; 2];
        let b = decode_to_slice(input.as_bytes(), &mut b).unwrap();

        assert_eq!(a, b);
    }
}

#[test]
fn decode_slice_matches_decode_upper_and_mixed() {
    for value in u16::MIN..=u16::MAX {
        let upper = format!("{value:04X}");
        let a = decode(upper.as_bytes()).unwrap();
        let mut b = [0; 2];
        let b = decode_to_slice(upper.as_bytes(), &mut b).unwrap();
        assert_eq!(a, b);
        assert_eq!(b, value.to_be_bytes());

        let lower = format!("{value:04x}");
        let mixed = [upper.as_bytes()[0], lower.as_bytes()[1], upper.as_bytes()[2], lower.as_bytes()[3]];
        assert_eq!(decode(&mixed), Ok(value.to_be_bytes().to_vec()));
    }
}

#[test]
fn every_pair_decodes_to_its_value() {
    let digits: Vec<(u8, u8)> = hex_chars()
        .map(|c| (c, (c as char).to_digit(16).unwrap() as u8))
        .collect();
    assert_eq!(digits.len(), 22);
    for &(high, high_value) in &digits {
        for &(low, low_value) in &digits {
            assert_eq!(decode(&[high, low]), Ok(vec![high_value * 16 + low_value]));
        }
    }
}

#[test]
fn every_byte_value_is_classified() {
    for value in u8::MIN..=u8::MAX {
        assert_eq!(
            hector::decode::fallback::is_hex_char(value),
            value.is_ascii_hexdigit()
        );
    }
}

#[test]
fn trusted_char_gives_digit_value() {
    for c in hex_chars() {
        let expected = (c as char).to_digit(16).unwrap() as u8;
        assert_eq!(hector::decode::fallback::decode_trusted_char(c), expected);
    }
    assert_eq!(hector::decode::fallback::decode_trusted_char(b'0'), 0);
    assert_eq!(hector::decode::fallback::decode_trusted_char(b'9'), 9);
    assert_eq!(hector::decode::fallback::decode_trusted_char(b'a'), 10);
    assert_eq!(hector::decode::fallback::decode_trusted_char(b'F'), 15);
}

#[test]
fn trusted_nibbles_put_the_first_character_high() {
    assert_eq!(
        hector::decode::fallback::decode_trusted_nibbles([b'1', b'0']),
        0x10
    );
    assert_eq!(
        hector::decode::fallback::decode_trusted_nibbles([b'0', b'1']),
        0x01
    );
    assert_eq!(
        hector::decode::fallback::decode_trusted_nibbles([b'f', b'E']),
        0xfe
    );
}

#[test]
fn validation_of_empty_input_succeeds() {
    assert_eq!(validate_hex(&[]), Ok(()));
    assert_eq!(decode(&[]), Ok(vec![]));
    let mut none: [u8; 0] = [];
    assert_eq!(decode_to_slice(&[], &mut none), Ok([].as_slice()));
}

#[test]
fn validation_reports_the_first_of_several_invalid_characters() {
    assert_eq!(
        validate_hex(b"01g3z5"),
        Err(Error::InvalidHex {
            offset: 2,
            value: b'g'
        })
    );
    assert_eq!(
        validate_hex(b"0123456789abcdefABCDEF@"),
        Err(Error::InvalidHex {
            offset: 22,
            value: b'@'
        })
    );
}
