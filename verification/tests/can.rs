use std::path::PathBuf;
use tinny::{Can, CanFile, CanOpener, Failure, Loaded, Object, SavedFile, SecretBytes, Value};

fn new_can() -> Can {
    Can::open_or_create(PathBuf::from("can.json"), Loaded::NotFound).unwrap().0
}

fn secret(bytes: &[u8]) -> SecretBytes {
    SecretBytes::from(bytes.to_vec())
}

/// An unlocked can that is quick to make.
fn keyed_can(secrets: Value) -> Can {
    let meta = "$argon2id$v=19$m=8,t=1,p=1$c2FsdHNhbHQ".to_string();
    let saved = SavedFile { version: 1, meta, secrets };
    let path = PathBuf::from("can.json");
    let (mut can, is_new) = Can::open_or_create(path, Loaded::File(saved)).unwrap();
    assert!(!is_new);
    can.unlock(&secret(b"pass")).unwrap();
    can
}

fn empty() -> Value {
    Value::Object(Object::new())
}

fn reopened(can: &Can) -> Can {
    let saved = can.save_atomic().content();
    let (can, is_new) = Can::open_or_create(can.path().clone(), Loaded::File(saved)).unwrap();
    assert!(!is_new);
    can
}

fn record(can: &Can, pointer: &str) -> String {
    match can.list(pointer).unwrap() {
        Value::String(text) => text,
        other => panic!("{other:?}"),
    }
}

#[test]
fn crud_roundtrip() {
    let mut can = new_can();

    let pass = secret(b"test-pass");
    can.unlock(&pass).unwrap();

    can.create("/service/db/password", secret(b"first")).unwrap();
    let got = can.read("/service/db/password").unwrap();
    assert_eq!(got.expose_secret(), b"first");

    can.update("/service/db/password", secret(b"second")).unwrap();
    let got2 = can.read("/service/db/password").unwrap();
    assert_eq!(got2.expose_secret(), b"second");

    let listed = can.list("/service/db").unwrap();
    assert!(listed.pointer("/password").is_some());

    can.delete("/service/db/password").unwrap();
    assert!(can.read("/service/db/password").is_err());
}

#[test]
fn rejects_malformed_pointer() {
    let mut can = new_can();
    let pass = secret(b"test-pass");
    can.unlock(&pass).unwrap();
    assert!(can.create("bad", secret(b"v")).is_err());
}

#[test]
fn schema_and_save_load() {
    let (mut can, is_new_file) =
        Can::open_or_create(PathBuf::from("can.json"), Loaded::NotFound).unwrap();
    assert!(is_new_file);
    assert_eq!(can.file().version, 1);

    let pass = secret(b"test-pass");
    can.unlock(&pass).unwrap();
    can.create("/k", secret(b"v")).unwrap();
    let saved = can.save_atomic().content();
    assert!(saved.meta.starts_with("$argon2id$"));
    assert!(matches!(saved.secrets.pointer("/k"), Some(Value::String(_))));

    let mut reopened = reopened(&can);
    reopened.unlock(&pass).unwrap();
    let got = reopened.read("/k").unwrap();
    assert_eq!(got.expose_secret(), b"v");
}

#[test]
fn rejects_legacy_secret_object_shape() {
    let mut can = new_can();
    let pass = secret(b"test-pass");
    can.unlock(&pass).unwrap();
    can.create("/k", secret(b"v")).unwrap();

    let mut saved = can.save_atomic().content();
    let mut legacy = Object::new();
    legacy.insert("alg".to_string(), Value::String("AES_256_GCM_SIV".to_string()));
    legacy.insert("ciphertext_hex".to_string(), Value::String("00".to_string()));
    let mut secrets = Object::new();
    secrets.insert("k".to_string(), Value::Object(legacy));
    saved.secrets = Value::Object(secrets);

    let (mut reopened, _) =
        Can::open_or_create(PathBuf::from("can.json"), Loaded::File(saved)).unwrap();
    reopened.unlock(&pass).unwrap();
    let e = reopened.read("/k").unwrap_err();
    assert_eq!(e.message(), "invalid secret record at pointer: /k");
    assert!(matches!(reopened.validate_read("/k").unwrap_err(), Failure::InvalidSecretRecord(_)));
}

#[test]
fn loading_can_fail() {
    let path = || PathBuf::from("x.json");
    let e = Can::open_or_create(path(), Loaded::Unreadable("x.json".to_string())).unwrap_err();
    assert_eq!(e.message(), "failed to read can file: x.json");
    let e = Can::open_or_create(path(), Loaded::Malformed("x.json".to_string())).unwrap_err();
    assert_eq!(e.message(), "failed to parse can file: x.json");
    let mut saved = new_can().file().saved();
    saved.version = 2;
    let e = Can::open_or_create(path(), Loaded::File(saved)).unwrap_err();
    assert_eq!(e.message(), "unsupported can file schema version: 2 (expected 1)");
}

#[test]
fn the_key_is_not_saved() {
    let mut can = keyed_can(empty());
    can.create("/a/b", secret(b"v")).unwrap();
    let unlocked = can.file().saved();
    can.lock();
    let locked = can.file().saved();
    assert_eq!(unlocked.version, locked.version);
    assert_eq!(unlocked.meta, locked.meta);
    assert_eq!(format!("{:?}", unlocked.secrets), format!("{:?}", locked.secrets));
}

#[test]
fn a_saved_can_opens_locked() {
    let mut can = keyed_can(empty());
    can.create("/a/b", secret(b"v")).unwrap();
    can.create("/gone", secret(b"w")).unwrap();
    can.delete("/gone").unwrap();
    assert!(can.file().key.key.is_some());
    let mut reopened = reopened(&can);
    assert_eq!(reopened.path(), can.path());
    assert_eq!(reopened.file().version, 1);
    assert_eq!(reopened.file().key.meta, can.file().key.meta);
    assert!(reopened.file().key.key.is_none());
    assert_eq!(record(&reopened, "/a/b"), record(&can, "/a/b"));
    assert!(reopened.list("/gone").is_err());
    reopened.unlock(&secret(b"pass")).unwrap();
    assert_eq!(reopened.read("/a/b").unwrap().expose_secret(), b"v");
}

#[test]
fn a_loaded_file_has_its_parts() {
    let file = CanFile::loaded(7, "meta".to_string(), Value::Bool(true));
    assert_eq!(file.version, 7);
    assert_eq!(file.key.meta, "meta");
    assert!(file.key.key.is_none());
    assert!(matches!(file.secrets, Value::Bool(true)));
}

#[test]
fn a_new_can_is_empty_and_locked() {
    let can = new_can();
    assert_eq!(can.path(), &PathBuf::from("can.json"));
    assert!(can.file().key.key.is_none());
    assert!(matches!(&can.file().secrets, Value::Object(o) if o.entries().is_empty()));
}

#[test]
fn a_can_keeps_the_opener_it_is_made_with() {
    let can = Can::with_opener(PathBuf::from("c"), CanOpener::with_salt("c2FsdHNhbHQ"));
    assert_eq!(can.path(), &PathBuf::from("c"));
    assert_eq!(can.file().version, 1);
    assert_eq!(can.file().key.meta, "$argon2id$v=19$m=19456,t=2,p=1$c2FsdHNhbHQ");
    assert!(matches!(&can.file().secrets, Value::Object(o) if o.entries().is_empty()));
}

#[test]
fn a_secret_survives_locking() {
    let mut can = new_can();
    can.unlock(&secret(b"pass")).unwrap();
    can.create("/k", secret(b"v")).unwrap();
    can.lock();
    assert!(matches!(can.read("/k").unwrap_err(), Failure::LockedForRead));
    can.unlock(&secret(b"pass")).unwrap();
    assert_eq!(can.read("/k").unwrap().expose_secret(), b"v");
    can.unlock(&secret(b"wrong")).unwrap();
    assert!(matches!(can.read("/k").unwrap_err(), Failure::DecryptionFailed));
}

#[test]
fn a_locked_can_takes_no_secret() {
    let mut can = keyed_can(empty());
    can.create("/a", secret(b"v")).unwrap();
    can.lock();
    assert!(matches!(can.create("/b", secret(b"w")).unwrap_err(), Failure::LockedForWrite));
    assert!(matches!(can.update("/a", secret(b"w")).unwrap_err(), Failure::LockedForWrite));
    assert!(can.list("/b").is_err());
}

#[test]
fn a_write_keeps_other_secrets() {
    let mut can = keyed_can(empty());
    can.create("/svc/db/password", secret(b"alpha")).unwrap();
    can.create("/svc/api/token", secret(b"beta")).unwrap();
    can.update("/svc/api/token", secret(b"gamma")).unwrap();
    assert_eq!(can.read("/svc/db/password").unwrap().expose_secret(), b"alpha");
    can.delete("/svc/api").unwrap();
    assert_eq!(can.read("/svc/db/password").unwrap().expose_secret(), b"alpha");
}

#[test]
fn a_secret_below_a_secret_takes_its_place() {
    let mut can = keyed_can(empty());
    can.create("/a", secret(b"outer")).unwrap();
    can.create("/a/b", secret(b"inner")).unwrap();
    assert!(matches!(can.read("/a").unwrap_err(), Failure::InvalidSecretRecord(_)));
    assert_eq!(can.read("/a/b").unwrap().expose_secret(), b"inner");
}

#[test]
fn where_there_is_a_secret_none_is_created() {
    let mut can = keyed_can(empty());
    can.create("/a/b", secret(b"one")).unwrap();
    let before = record(&can, "/a/b");
    let e = can.create("/a/b", secret(b"two")).unwrap_err();
    assert_eq!(e.message(), "secret already exists: /a/b");
    assert!(matches!(can.create("/a", secret(b"two")).unwrap_err(), Failure::SecretExists(_)));
    assert!(can.validate_read("/a/b").is_ok());
    assert!(can.validate_update("/a/b").is_ok());
    assert_eq!(record(&can, "/a/b"), before);
}

#[test]
fn where_there_is_none_none_is_updated() {
    let mut can = keyed_can(empty());
    let e = can.update("/missing", secret(b"x")).unwrap_err();
    assert_eq!(e.message(), "pointer not found: /missing");
    assert!(matches!(can.validate_read("/missing").unwrap_err(), Failure::PointerNotFound(_)));
    assert!(can.validate_create("/missing").is_ok());
}

#[test]
fn roots_are_refused_everywhere() {
    let mut can = keyed_can(empty());
    for root in ["", "/"] {
        assert!(matches!(can.validate_create(root).unwrap_err(), Failure::RootPointer));
        assert!(matches!(can.validate_read(root).unwrap_err(), Failure::RootPointer));
        assert!(matches!(can.validate_update(root).unwrap_err(), Failure::RootPointer));
        assert!(matches!(can.delete(root).unwrap_err(), Failure::RootPointer));
        assert!(matches!(can.read(root).unwrap_err(), Failure::RootPointer));
    }
}

#[test]
fn an_empty_token_names_no_place() {
    let mut can = keyed_can(empty());
    for pointer in ["/a//b", "/a/", "//"] {
        let e = can.validate_create(pointer).unwrap_err();
        assert_eq!(e.message(), format!("invalid JSON pointer token in: {pointer}"));
        assert!(matches!(can.validate_update(pointer).unwrap_err(), Failure::EmptyToken(_)));
        assert!(matches!(can.create(pointer, secret(b"x")).unwrap_err(), Failure::EmptyToken(_)));
        assert!(matches!(can.update(pointer, secret(b"x")).unwrap_err(), Failure::EmptyToken(_)));
        assert!(matches!(can.delete(pointer).unwrap_err(), Failure::EmptyToken(_)));
    }
    can.lock();
    assert!(matches!(can.create("/a//b", secret(b"x")).unwrap_err(), Failure::EmptyToken(_)));
    assert!(matches!(can.list("").unwrap(), Value::Object(o) if o.entries().is_empty()));
}

#[test]
fn a_subtree_is_no_secret_to_update() {
    let mut can = keyed_can(empty());
    can.create("/a/b", secret(b"v")).unwrap();
    assert!(can.validate_update("/a/b").is_ok());
    assert!(matches!(can.validate_update("/missing").unwrap_err(), Failure::PointerNotFound(_)));
    let e = can.validate_update("/a").unwrap_err();
    assert_eq!(e.message(), "invalid secret record at pointer: /a");
    assert!(matches!(can.update("/a", secret(b"x")).unwrap_err(), Failure::InvalidSecretRecord(_)));
    assert_eq!(can.read("/a/b").unwrap().expose_secret(), b"v");
}

#[test]
fn a_secret_stays_through_operations_elsewhere() {
    let mut can = Can::with_opener(
        PathBuf::from("c"),
        CanOpener {
            meta: "$argon2id$v=19$m=64,t=1,p=1$c2FsdHNhbHQ".to_string(),
            key: None,
        },
    );
    can.unlock(&secret(b"pass")).unwrap();
    can.create("/svc/db", secret(b"kept")).unwrap();
    for round in 0..3 {
        can.create("/svc/api", secret(b"one")).unwrap();
        can.update("/svc/api", secret(b"two")).unwrap();
        can.create("/other/deep/place", secret(b"three")).unwrap();
        assert!(can.create("/svc/db", secret(b"no")).is_err());
        can.lock();
        assert!(matches!(can.read("/svc/db").unwrap_err(), Failure::LockedForRead));
        can.delete("/svc/api").unwrap();
        can.unlock(&secret(b"wrong")).unwrap();
        assert!(can.read("/svc/db").is_err());
        can.delete("/other").unwrap();
        can.unlock(&secret(b"pass")).unwrap();
        assert_eq!(can.read("/svc/db").unwrap().expose_secret(), b"kept", "round {round}");
    }
}

#[test]
fn what_was_deleted_is_gone() {
    let mut can = keyed_can(empty());
    can.create("/k", secret(b"v")).unwrap();
    can.delete("/k").unwrap();
    assert!(matches!(can.read("/k").unwrap_err(), Failure::PointerNotFound(_)));
    assert!(matches!(can.list("/k").unwrap_err(), Failure::PointerNotFound(_)));
    assert!(matches!(can.delete("/k").unwrap_err(), Failure::PointerNotFound(_)));
    assert!(matches!(can.update("/k", secret(b"w")).unwrap_err(), Failure::PointerNotFound(_)));
    assert!(matches!(can.list("").unwrap(), Value::Object(o) if o.entries().is_empty()));
    can.create("/k", secret(b"w")).unwrap();
    assert_eq!(can.read("/k").unwrap().expose_secret(), b"w");
}

#[test]
fn deleting_needs_no_key() {
    let mut can = keyed_can(empty());
    can.create("/k", secret(b"v")).unwrap();
    can.lock();
    can.delete("/k").unwrap();
    assert!(can.list("/k").is_err());
}

#[test]
fn listing_shows_the_sealed_form() {
    let mut can = keyed_can(empty());
    can.create("/k", secret(b"v")).unwrap();
    let text = record(&can, "/k");
    assert_eq!(text.len(), 2 * (12 + 1 + 16));
    let sealed = tinny::hex_decode(&text).unwrap();
    assert_eq!(can.file().key.unseal(&sealed).unwrap().expose_secret(), b"v");
}

#[test]
fn stored_texts_must_be_hex_of_sealed_bytes() {
    let mut secrets = Object::new();
    secrets.insert("odd".to_string(), Value::String("abc".to_string()));
    secrets.insert("text".to_string(), Value::String("hello!".to_string()));
    secrets.insert("short".to_string(), Value::String("00".repeat(27)));
    secrets.insert("forged".to_string(), Value::String("00".repeat(28)));
    secrets.insert("null".to_string(), Value::Null);
    let can = keyed_can(Value::Object(secrets));
    assert!(matches!(can.read("/odd").unwrap_err(), Failure::OddHexLength));
    assert!(matches!(can.read("/text").unwrap_err(), Failure::InvalidHexChar));
    assert!(matches!(can.read("/short").unwrap_err(), Failure::CiphertextTooShort));
    assert!(matches!(can.read("/forged").unwrap_err(), Failure::DecryptionFailed));
    assert!(matches!(can.read("/null").unwrap_err(), Failure::InvalidSecretRecord(_)));
}

#[test]
fn sealed_bytes_are_stored_in_hex() {
    let mut can = keyed_can(empty());
    can.store_sealed("/a/b", &[0, 171]).unwrap();
    assert_eq!(record(&can, "/a/b"), "00ab");
    assert!(matches!(can.store_sealed("", &[]).unwrap_err(), Failure::NoToken));
    assert!(matches!(can.store_sealed("/", &[]).unwrap_err(), Failure::EmptyToken(_)));
    assert!(matches!(can.store_sealed("a", &[]).unwrap_err(), Failure::MissingSlash(_)));
    assert_eq!(record(&can, "/a/b"), "00ab");
}
