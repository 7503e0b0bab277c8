use tinny::text::{parse_usize, push_decimal};
use tinny::{decode_pointer_tokens, ensure_non_root_pointer, Failure};

#[test]
fn the_root_cannot_name_a_secret() {
    assert!(matches!(ensure_non_root_pointer("").unwrap_err(), Failure::RootPointer));
    assert!(matches!(ensure_non_root_pointer("/").unwrap_err(), Failure::RootPointer));
    assert!(ensure_non_root_pointer("/k").is_ok());
    assert!(ensure_non_root_pointer("//").is_ok());
}

#[test]
fn a_pointer_starts_with_a_slash() {
    let e = ensure_non_root_pointer("bad").unwrap_err();
    assert!(matches!(&e, Failure::MissingSlash(p) if p == "bad"));
    assert_eq!(e.message(), "invalid JSON pointer (must start with '/'): bad");
    assert!(matches!(decode_pointer_tokens("bad").unwrap_err(), Failure::MissingSlash(_)));
}

#[test]
fn tokens_are_split_and_unescaped() {
    assert_eq!(decode_pointer_tokens("").unwrap(), Vec::<String>::new());
    assert_eq!(decode_pointer_tokens("/service/db/password").unwrap(), vec![
        "service", "db", "password",
    ]);
    assert_eq!(decode_pointer_tokens("/a~1b/~0").unwrap(), vec!["a/b", "~"]);
    assert_eq!(decode_pointer_tokens("/~01").unwrap(), vec!["~1"]);
    assert_eq!(decode_pointer_tokens("/~/~2/ü").unwrap(), vec!["~", "~2", "ü"]);
}

#[test]
fn no_token_may_be_empty() {
    for pointer in ["/", "//", "/a/", "/a//b"] {
        let e = decode_pointer_tokens(pointer).unwrap_err();
        assert!(matches!(&e, Failure::EmptyToken(p) if p == pointer));
    }
}

#[test]
fn every_path_has_a_pointer() {
    let keys = ["plain", "sl/ash", "ti~lde", "~1", "/~", "00"];
    let pointer: String =
        keys.iter().map(|k| format!("/{}", k.replace('~', "~0").replace('/', "~1"))).collect();
    assert_eq!(decode_pointer_tokens(&pointer).unwrap(), keys);
}

#[test]
fn decimal_notation_round_trip() {
    for n in [0u64, 7, 10, 19456, 4294967295] {
        let mut text = String::new();
        push_decimal(&mut text, n);
        assert_eq!(text, n.to_string());
        assert_eq!(parse_usize(&text), Some(n as usize));
    }
}

#[test]
fn only_plain_decimals_are_numbers() {
    for text in ["", "00", "01", "+1", "-1", "1a", " 1", "99999999999999999999999"] {
        assert_eq!(parse_usize(text), None);
    }
}
