use password_hash::PasswordHash;
use tinny::cipher::{frame, unframe};
use tinny::kdf::KdfSettings;
use tinny::opener::key_from;
use tinny::{CanOpener, Failure, SecretBytes};

#[test]
fn unlock_lock_roundtrip() {
    let mut opener = CanOpener::new().unwrap();
    let passphrase = SecretBytes::from(b"test-passphrase".to_vec());
    opener.unlock(&passphrase).unwrap();
    assert!(opener.key.is_some());
    opener.lock();
    assert!(opener.key.is_none());
}

#[test]
fn seal_unseal_roundtrip() {
    let mut opener = CanOpener::new().unwrap();
    let passphrase = SecretBytes::from(b"test-passphrase".to_vec());
    opener.unlock(&passphrase).unwrap();

    let plaintext = b"my secret".to_vec();
    let mut secret = SecretBytes::from(plaintext.clone());
    let ciphertext = opener.seal(&mut secret).unwrap();
    let unsealed = opener.unseal(&ciphertext).unwrap();

    assert_eq!(unsealed.expose_secret(), plaintext.as_slice());
}

#[test]
fn unseal_fails_with_wrong_passphrase() {
    let mut opener1 = CanOpener::new().unwrap();
    let pass1 = SecretBytes::from(b"pass-1".to_vec());
    opener1.unlock(&pass1).unwrap();

    let mut secret = SecretBytes::from(b"abc".to_vec());
    let ciphertext = opener1.seal(&mut secret).unwrap();

    let mut opener2 = opener1.clone();
    opener2.lock();
    let pass2 = SecretBytes::from(b"pass-2".to_vec());
    opener2.unlock(&pass2).unwrap();

    assert!(opener2.unseal(&ciphertext).is_err());
}

#[test]
fn default_meta_is_parseable_phc_without_hash() {
    let opener = CanOpener::new().unwrap();
    let parsed = PasswordHash::new(&opener.meta).expect("failed to parse meta");
    assert_eq!(parsed.algorithm.as_str(), "argon2id");
    assert!(parsed.salt.is_some());
    assert!(parsed.hash.is_none());
}

#[test]
fn unlock_fails_with_malformed_phc() {
    let mut opener = CanOpener::new().unwrap();
    opener.meta = "not-phc".to_string();
    let pass = SecretBytes::from(b"test-passphrase".to_vec());
    assert!(opener.unlock(&pass).is_err());
}

#[test]
fn default_meta_has_the_default_costs() {
    let opener = CanOpener::new().unwrap();
    assert!(opener.meta.starts_with("$argon2id$v=19$m=19456,t=2,p=1$"));
    assert_eq!(opener.meta.len(), "$argon2id$v=19$m=19456,t=2,p=1$".len() + 22);
}

#[test]
fn the_salt_ends_the_metadata() {
    let opener = CanOpener::with_salt("AAAAAAAAAAAAAAAAAAAAAA");
    assert_eq!(opener.meta, "$argon2id$v=19$m=19456,t=2,p=1$AAAAAAAAAAAAAAAAAAAAAA");
    assert!(opener.key.is_none());
}

fn with_key(key: Vec<u8>) -> CanOpener {
    CanOpener { meta: String::new(), key: Some(SecretBytes::from(key)) }
}

#[test]
fn sealed_bytes_are_nonce_ciphertext_and_tag() {
    let opener = with_key(vec![7; 32]);
    let mut secret = SecretBytes::from(b"my secret".to_vec());
    let sealed = opener.seal(&mut secret).unwrap();
    assert_eq!(sealed.len(), 12 + 9 + 16);
    assert_eq!(&sealed[12..21], secret.expose_secret());
    assert_ne!(secret.expose_secret(), b"my secret");

    let key = aws_lc_rs::aead::RandomizedNonceKey::new(
        &aws_lc_rs::aead::AES_256_GCM_SIV,
        &[7u8; 32],
    )
    .unwrap();
    let nonce = aws_lc_rs::aead::Nonce::try_assume_unique_for_key(&sealed[..12]).unwrap();
    let mut in_out = sealed[12..].to_vec();
    let opened = key.open_in_place(nonce, aws_lc_rs::aead::Aad::empty(), &mut in_out).unwrap();
    assert_eq!(opened, b"my secret");
}

#[test]
fn sealing_twice_differs() {
    let opener = with_key(vec![7; 32]);
    let first = opener.seal(&mut SecretBytes::from(b"same".to_vec())).unwrap();
    let second = opener.seal(&mut SecretBytes::from(b"same".to_vec())).unwrap();
    assert_ne!(first, second);
}

#[test]
fn the_empty_secret_can_be_sealed() {
    let opener = with_key(vec![0; 32]);
    let sealed = opener.seal(&mut SecretBytes::from(Vec::new())).unwrap();
    assert_eq!(sealed.len(), 28);
    assert_eq!(opener.unseal(&sealed).unwrap().expose_secret().len(), 0);
}

#[test]
fn changed_bytes_do_not_unseal() {
    let opener = with_key(vec![7; 32]);
    let sealed = opener.seal(&mut SecretBytes::from(b"abc".to_vec())).unwrap();
    for i in 0..sealed.len() {
        let mut changed = sealed.clone();
        changed[i] ^= 1;
        let e = opener.unseal(&changed).unwrap_err();
        assert!(matches!(e, Failure::DecryptionFailed));
    }
    let e = opener.unseal(&sealed[..sealed.len() - 1]).unwrap_err();
    assert_eq!(e.message(), "decryption failed (wrong passphrase or tampered data)");
}

#[test]
fn a_locked_opener_refuses() {
    let opener = CanOpener { meta: String::new(), key: None };
    let mut secret = SecretBytes::from(b"abc".to_vec());
    let e = opener.seal(&mut secret).unwrap_err();
    assert_eq!(e.message(), "can is locked; unlock before write");
    assert_eq!(secret.expose_secret(), b"abc");
    let e = opener.unseal(&[]).unwrap_err();
    assert_eq!(e.message(), "can is locked; unlock before read");
}

#[test]
fn a_key_of_another_length_refuses() {
    for len in [0, 16, 31, 33] {
        let opener = with_key(vec![1; len]);
        let e = opener.seal(&mut SecretBytes::from(b"abc".to_vec())).unwrap_err();
        assert!(matches!(e, Failure::EncryptionKey));
        assert!(matches!(opener.unseal(&[0; 27]).unwrap_err(), Failure::CiphertextTooShort));
        assert!(matches!(opener.unseal(&[0; 28]).unwrap_err(), Failure::DecryptionKey));
    }
}

#[test]
fn stored_bytes_must_hold_nonce_and_tag() {
    let opener = with_key(vec![1; 32]);
    assert!(matches!(opener.unseal(&[0; 27]).unwrap_err(), Failure::CiphertextTooShort));
    assert!(matches!(opener.unseal(&[0; 28]).unwrap_err(), Failure::DecryptionFailed));
}

#[test]
fn framing_puts_the_parts_in_a_row() {
    assert_eq!(frame(&[1, 2], &[3], &[4, 5, 6]), vec![1, 2, 3, 4, 5, 6]);
    assert_eq!(frame(&[], &[], &[]), Vec::<u8>::new());
}

#[test]
fn debug_output_hides_the_key() {
    let shown = format!("{:?}", with_key(vec![123; 32]));
    assert!(!shown.contains("123"));
}

#[test]
fn secret_bytes_can_be_changed_in_place() {
    let mut secret = SecretBytes::from(vec![1, 2, 3]);
    let copy = secret.clone();
    secret.expose_secret_mut()[1] = 9;
    assert_eq!(secret.expose_secret(), [1, 9, 3]);
    assert_eq!(copy.expose_secret(), [1, 2, 3]);
}

#[test]
fn taking_apart_undoes_framing() {
    let framed = frame(&[1; 12], &[2, 3], &[4; 16]);
    let (nonce, sealed) = unframe(&framed).unwrap();
    assert_eq!(nonce, [1; 12]);
    assert_eq!(sealed[..2], [2, 3]);
    assert_eq!(sealed[2..], [4; 16]);
    assert!(unframe(&framed[..27]).is_none());
    assert!(unframe(&framed[..28]).is_some());
}

#[test]
fn a_key_needs_a_salt() {
    let settings = || KdfSettings { salt: String::new(), m_cost: 64, t_cost: 1, p_cost: 1 };
    let pass = SecretBytes::from(b"pass".to_vec());
    let e = key_from(&pass, Err("why".to_string()), &settings()).unwrap_err();
    assert_eq!(e.message(), "invalid salt encoding: why");
    let e = key_from(&pass, Ok(vec![1; 7]), &settings()).unwrap_err();
    assert_eq!(e.message(), "failed to derive key: salt is too short");
    let key = key_from(&pass, Ok(vec![1; 8]), &settings()).unwrap();
    assert_eq!(key.expose_secret().len(), 32);
    let other = key_from(&pass, Ok(vec![2; 8]), &settings()).unwrap();
    assert_ne!(key.expose_secret(), other.expose_secret());
}
