use tinny::{hex_decode, hex_encode, hex_value, Failure};

#[test]
fn hex_notation_is_lower_case_high_half_first() {
    assert_eq!(hex_encode(&[]), "");
    assert_eq!(hex_encode(&[0, 255, 16, 0x0a, 0xb1]), "00ff100ab1");
}

#[test]
fn hex_of_both_cases_is_read() {
    assert_eq!(hex_decode("").unwrap(), Vec::<u8>::new());
    assert_eq!(hex_decode("00Ff10aB").unwrap(), vec![0u8, 255, 16, 0xab]);
}

#[test]
fn hex_round_trip() {
    let bytes: Vec<u8> = (0..=255).collect();
    assert_eq!(hex_decode(&hex_encode(&bytes)).unwrap(), bytes);
}

#[test]
fn odd_hex_is_refused_first() {
    assert!(matches!(hex_decode("0").unwrap_err(), Failure::OddHexLength));
    assert!(matches!(hex_decode("zzz").unwrap_err(), Failure::OddHexLength));
    assert!(matches!(hex_decode("é0").unwrap_err(), Failure::OddHexLength));
}

#[test]
fn other_characters_are_no_hex() {
    assert!(matches!(hex_decode("0g").unwrap_err(), Failure::InvalidHexChar));
    assert!(matches!(hex_decode("é").unwrap_err(), Failure::InvalidHexChar));
    assert!(matches!(hex_decode("00 0").unwrap_err(), Failure::InvalidHexChar));
}

#[test]
fn hex_digits_have_their_values() {
    assert_eq!(hex_value(b'0').unwrap(), 0);
    assert_eq!(hex_value(b'9').unwrap(), 9);
    assert_eq!(hex_value(b'a').unwrap(), 10);
    assert_eq!(hex_value(b'f').unwrap(), 15);
    assert_eq!(hex_value(b'A').unwrap(), 10);
    assert_eq!(hex_value(b'F').unwrap(), 15);
    for c in [b'/', b':', b'@', b'G', b'`', b'g', 0u8, 255u8] {
        assert!(matches!(hex_value(c).unwrap_err(), Failure::InvalidHexChar));
    }
}
