use tinny::kdf::{kdf_settings, salt_of, Phc};
use tinny::{make_random, make_salt, CanOpener, Failure, SecretBytes};

#[test]
fn doesnt_produce_null_bytes() {
    let secret = make_random(16).unwrap();
    let sixteen_nulls = [0u8; 16];
    assert_ne!(secret.expose_secret(), sixteen_nulls.as_slice());
}

#[test]
fn utils_is_producing_different_values() {
    let secret1 = make_random(16).unwrap();
    let secret2 = make_random(16).unwrap();
    assert_ne!(secret1.expose_secret(), secret2.expose_secret());
    let salt1 = make_salt().unwrap();
    let salt2 = make_salt().unwrap();
    assert_ne!(salt1, salt2);
}

#[test]
fn doesnt_use_null_bytes() {
    let sixteen_zeroes_encoded_as_base64 = "AAAAAAAAAAAAAAAAAAAAAA==";
    let salt = make_salt().unwrap();
    assert_ne!(salt.as_str(), sixteen_zeroes_encoded_as_base64);
}

#[test]
fn random_secrets_have_the_length_asked_for() {
    assert_eq!(make_random(0).unwrap().expose_secret().len(), 0);
    assert_eq!(make_random(33).unwrap().expose_secret().len(), 33);
}

#[test]
fn a_salt_is_sixteen_bytes_in_b64() {
    let salt = make_salt().unwrap();
    assert_eq!(salt.len(), 22);
    assert!(salt.chars().all(|c| c.is_ascii_alphanumeric() || c == '+' || c == '/'));
    let mut buffer = [0u8; 64];
    let parsed = password_hash::Salt::from_b64(&salt).unwrap();
    let bytes = parsed.decode_b64(&mut buffer).unwrap();
    assert_eq!(bytes.len(), 16);
    assert_ne!(bytes, [0u8; 16]);
}

#[test]
fn a_salt_is_the_b64_of_its_bytes() {
    let cases: [(&[u8], &str); 8] = [
        (b"", ""),
        (b"f", "Zg"),
        (b"fo", "Zm8"),
        (b"foo", "Zm9v"),
        (b"foobar", "Zm9vYmFy"),
        (b"saltsalt", "c2FsdHNhbHQ"),
        (&[0; 16], "AAAAAAAAAAAAAAAAAAAAAA"),
        (&[0xfb, 0xff, 0xbf], "+/+/"),
    ];
    for (bytes, text) in cases {
        assert_eq!(salt_of(&bytes.to_vec()).unwrap(), text);
    }
    assert_eq!(salt_of(&vec![255; 48]).unwrap(), "/".repeat(64));
    let e = salt_of(&vec![0; 49]).unwrap_err();
    assert_eq!(e.message(), "Salt encoding failed: invalid Base64 length");
}

fn phc(algorithm: &str, params: &[(&str, &str)], salt: Option<&str>, has_hash: bool) -> Phc {
    Phc {
        algorithm: algorithm.to_string(),
        params: params.iter().map(|(n, v)| (n.to_string(), v.to_string())).collect(),
        salt: salt.map(|s| s.to_string()),
        has_hash,
    }
}

const COSTS: [(&str, &str); 3] = [("m", "64"), ("t", "3"), ("p", "2")];

#[test]
fn settings_come_from_the_fields() {
    let settings = kdf_settings(&phc("argon2id", &COSTS, Some("c2FsdHNhbHQ"), false)).unwrap();
    assert_eq!(settings.salt, "c2FsdHNhbHQ");
    assert_eq!((settings.m_cost, settings.t_cost, settings.p_cost), (64, 3, 2));
}

#[test]
fn of_two_parameters_with_one_name_the_first_counts() {
    let params = [("x", "9"), ("p", "1"), ("m", "16"), ("m", "32"), ("t", "1"), ("t", "no")];
    let settings = kdf_settings(&phc("argon2id", &params, Some("c2FsdA"), false)).unwrap();
    assert_eq!((settings.m_cost, settings.t_cost, settings.p_cost), (16, 1, 1));
}

#[test]
fn fields_are_refused_in_order() {
    let e = kdf_settings(&phc("argon2i", &[], None, true)).unwrap_err();
    assert_eq!(e.message(), "unsupported kdf: argon2i");
    let e = kdf_settings(&phc("argon2id", &[], None, true)).unwrap_err();
    assert!(matches!(e, Failure::HashPresent));
    let e = kdf_settings(&phc("argon2id", &[], None, false)).unwrap_err();
    assert!(matches!(e, Failure::MissingSalt));
    let e = kdf_settings(&phc("argon2id", &[], Some("c2FsdA"), false)).unwrap_err();
    assert_eq!(e.message(), "invalid key metadata PHC string: missing m param");
    let e = kdf_settings(&phc("argon2id", &COSTS[..1], Some("c2FsdA"), false)).unwrap_err();
    assert!(matches!(e, Failure::MissingParam(n) if n == "t"));
    let e = kdf_settings(&phc("argon2id", &COSTS[..2], Some("c2FsdA"), false)).unwrap_err();
    assert!(matches!(e, Failure::MissingParam(n) if n == "p"));
}

#[test]
fn parameters_are_plain_decimals_of_32_bits() {
    for bad in ["", "064", "-64", "64k", "4294967296"] {
        let params = [("m", bad), ("t", "1"), ("p", "1")];
        let e = kdf_settings(&phc("argon2id", &params, Some("c2FsdA"), false)).unwrap_err();
        assert!(matches!(e, Failure::MissingParam(n) if n == "m"));
    }
}

#[test]
fn costs_are_held_to_the_limits_of_argon2() {
    let cases = [
        ("7", "1", "1", "memory cost is too small"),
        ("15", "1", "2", "memory cost is too small"),
        ("7", "0", "0", "memory cost is too small"),
        ("8", "0", "1", "time cost is too small"),
        ("8", "1", "0", "not enough threads"),
        ("4294967295", "1", "16777216", "too many threads"),
        ("4294967295", "1", "536870911", "too many threads"),
        ("4294967295", "1", "536870912", "memory cost is too small"),
        ("4294967295", "1", "4294967295", "memory cost is too small"),
    ];
    for (m, t, p, reason) in cases {
        let params = [("m", m), ("t", t), ("p", p)];
        let e = kdf_settings(&phc("argon2id", &params, Some("c2FsdA"), false)).unwrap_err();
        assert_eq!(e.message(), format!("invalid argon2 params: {reason}"));
    }
    let params = [("m", "16"), ("t", "1"), ("p", "2")];
    assert!(kdf_settings(&phc("argon2id", &params, Some("c2FsdA"), false)).is_ok());
}

fn opener(meta: &str) -> CanOpener {
    CanOpener { meta: meta.to_string(), key: None }
}

fn unlock_message(meta: &str) -> String {
    let mut opener = opener(meta);
    let e = opener.unlock(&SecretBytes::from(b"pass".to_vec())).unwrap_err();
    assert!(opener.key.is_none());
    e.message()
}

#[test]
fn metadata_is_refused_with_a_reason() {
    assert!(unlock_message("").starts_with("invalid key metadata PHC string: "));
    assert_eq!(unlock_message("$scrypt$ln=1$c2FsdHNhbHQ"), "unsupported kdf: scrypt");
    assert_eq!(
        unlock_message("$argon2id$v=19$m=64,t=3,p=2"),
        "invalid key metadata PHC string: missing salt"
    );
    assert_eq!(
        unlock_message("$argon2id$v=19$m=64,t=3,p=2$c2FsdHNhbHQ$AAAAAAAAAAAAAAAAAAAAAA"),
        "invalid key metadata PHC string: hash output must be omitted"
    );
    assert_eq!(
        unlock_message("$argon2id$v=19$m=64,p=2$c2FsdHNhbHQ"),
        "invalid key metadata PHC string: missing t param"
    );
    assert_eq!(
        unlock_message("$argon2id$v=19$m=4,t=3,p=2$c2FsdHNhbHQ"),
        "invalid argon2 params: memory cost is too small"
    );
    // A dot, bits left over, and a lone last character.
    for salt in ["c2Fs.HNhbHQ", "c2FsdHNhbHR", "c2FsdHNhb"] {
        assert_eq!(
            unlock_message(&format!("$argon2id$v=19$m=64,t=3,p=2${salt}")),
            "invalid salt encoding: invalid Base64 encoding"
        );
    }
    assert_eq!(
        unlock_message("$argon2id$v=19$m=64,t=3,p=2$c2FsdA"),
        "failed to derive key: salt is too short"
    );
}

#[test]
fn the_key_is_the_output_of_argon2id() {
    let mut opener = opener("$argon2id$v=19$m=64,t=3,p=2$c2FsdHNhbHQ");
    opener.unlock(&SecretBytes::from(b"pass".to_vec())).unwrap();
    let params = argon2::Params::new(64, 3, 2, Some(32)).unwrap();
    let argon2 =
        argon2::Argon2::new(argon2::Algorithm::Argon2id, argon2::Version::V0x13, params);
    let mut expected = [0u8; 32];
    argon2.hash_password_into(b"pass", b"saltsalt", &mut expected).unwrap();
    assert_eq!(opener.key.as_ref().unwrap().expose_secret(), expected);
}

#[test]
fn the_key_depends_on_everything() {
    let metas = [
        "$argon2id$v=19$m=64,t=3,p=2$c2FsdHNhbHQ",
        "$argon2id$v=19$m=65,t=3,p=2$c2FsdHNhbHQ",
        "$argon2id$v=19$m=64,t=4,p=2$c2FsdHNhbHQ",
        "$argon2id$v=19$m=64,t=3,p=1$c2FsdHNhbHQ",
        "$argon2id$v=19$m=64,t=3,p=2$c2FsdHNhbHU",
    ];
    let mut keys: Vec<Vec<u8>> = Vec::new();
    for meta in metas {
        let mut opener = opener(meta);
        opener.unlock(&SecretBytes::from(b"pass".to_vec())).unwrap();
        keys.push(opener.key.as_ref().unwrap().expose_secret().to_vec());
    }
    let mut other = opener(metas[0]);
    other.unlock(&SecretBytes::from(b"Pass".to_vec())).unwrap();
    keys.push(other.key.as_ref().unwrap().expose_secret().to_vec());
    for i in 0..keys.len() {
        assert_eq!(keys[i].len(), 32);
        for j in 0..i {
            assert_ne!(keys[i], keys[j]);
        }
    }
}

#[test]
fn a_failed_unlock_keeps_the_key() {
    let mut opener = opener("$argon2id$v=19$m=64,t=3,p=2$c2FsdHNhbHQ");
    opener.unlock(&SecretBytes::from(b"pass".to_vec())).unwrap();
    let key = opener.key.as_ref().unwrap().expose_secret().to_vec();
    opener.meta = "not-phc".to_string();
    assert!(opener.unlock(&SecretBytes::from(b"other".to_vec())).is_err());
    assert_eq!(opener.key.as_ref().unwrap().expose_secret(), key);
}
