use std::path::PathBuf;
use tinny::input::{
    read_passphrase_from_pipe, read_secret_from_pipe, secret_of_text, PassphraseSource,
    SecretSource,
};
use tinny::{
    prompt_passphrase, read_secret, start, Actions, Can, CanError, Loaded, SecretBytes, Step,
    Value, WriteMode,
};

fn setup_can_with_secret(pointer: &str, secret: &[u8], pass: &[u8]) -> Can {
    let (mut can, _) = Can::open_or_create(PathBuf::from("can.json"), Loaded::NotFound).unwrap();
    add_secret(&mut can, pointer, secret, pass);
    can
}

fn add_secret(can: &mut Can, pointer: &str, secret: &[u8], pass: &[u8]) {
    can.unlock(&SecretBytes::from(pass.to_vec())).expect("unlock");
    can.create(pointer, SecretBytes::from(secret.to_vec())).expect("create secret");
    can.lock();
}

fn passphrase_line(confirm: bool, stdin: &mut &str) -> Result<SecretBytes, CanError> {
    assert!(matches!(prompt_passphrase(confirm, false), PassphraseSource::Pipe));
    let end = stdin.find('\n').map_or(stdin.len(), |i| i + 1);
    let (line, rest) = stdin.split_at(end);
    *stdin = rest;
    Ok(secret_of_text(&read_passphrase_from_pipe(line)?))
}

fn piped_secret(length: usize, generate: bool, stdin: &str) -> Result<SecretBytes, CanError> {
    match read_secret(length, generate, false)? {
        SecretSource::Generated(secret) => Ok(secret),
        SecretSource::Pipe(limit) => {
            let data = stdin.as_bytes();
            let kept = data[..limit.min(data.len())].to_vec();
            read_secret_from_pipe(limit, kept, data.len() > limit)
        }
        SecretSource::Prompt(_) => panic!("a pipe is no terminal"),
    }
}

struct Ran {
    saved: Option<Can>,
    stdout: Vec<u8>,
    tree: Option<Value>,
}

/// Runs an action with standard input from a pipe.
fn run(can: Can, is_new: bool, action: Actions, stdin: &str) -> Result<Ran, CanError> {
    let mut stdin = stdin;
    let saved = |can: Can, report: String| Ran {
        saved: Some(can),
        stdout: report.into_bytes(),
        tree: None,
    };
    match start(can, is_new, action, false)? {
        Step::UnlockToWrite(writing, confirm) => {
            assert!(!confirm);
            let writing = writing.unlock(&passphrase_line(confirm, &mut stdin)?)?;
            let secret = piped_secret(writing.length, writing.generate, stdin)?;
            let (can, report) = writing.finish(secret)?;
            Ok(saved(can, report))
        }
        Step::UnlockToRead(reading) => {
            let secret = reading.finish(&passphrase_line(false, &mut stdin)?)?;
            Ok(Ran { saved: None, stdout: secret.expose_secret().to_vec(), tree: None })
        }
        Step::Save(can, report) => Ok(saved(can, report)),
        Step::ShowTree(tree) => Ok(Ran { saved: None, stdout: Vec::new(), tree: Some(tree) }),
    }
}

fn failure(can: Can, action: Actions) -> String {
    match run(can, false, action, "") {
        Ok(_) => panic!("it should fail"),
        Err(e) => e.message(),
    }
}

#[test]
fn create_without_tty_uses_single_passphrase_line() {
    let (can, is_new) = Can::open_or_create(PathBuf::from("can.json"), Loaded::NotFound).unwrap();
    let action = Actions::Create { pointer: "/k".to_string(), length: 6, generate: true };
    let ran = run(can, is_new, action, "pass-123\n").unwrap();
    assert_eq!(ran.stdout, b"created /k");

    let can = ran.saved.unwrap();
    assert!(can.file().key.meta.starts_with("$argon2id$"));
    assert!(matches!(can.file().secrets.pointer("/k"), Some(Value::String(t)) if !t.is_empty()));
    assert_eq!(can.read("/k").unwrap().expose_secret().len(), 6);
}

#[test]
fn create_existing_secret_fails_before_reading_stdin() {
    let can = setup_can_with_secret("/k", b"first", b"pass-123");
    let action = Actions::Create { pointer: "/k".to_string(), length: 4096, generate: false };
    let stderr = failure(can, action);
    assert!(stderr.contains("secret already exists: /k"));
    assert!(!stderr.contains("missing passphrase"));
}

#[test]
fn read_without_tty_uses_single_passphrase_line() {
    let can = setup_can_with_secret("/k", b"first", b"pass-123");
    let action = Actions::Read { pointer: "/k".to_string() };
    let ran = run(can, false, action, "pass-123\n").unwrap();
    assert_eq!(ran.stdout, b"first");
    assert!(ran.saved.is_none());
}

#[test]
fn read_missing_secret_fails_before_reading_stdin() {
    let can = setup_can_with_secret("/k", b"first", b"pass-123");
    let stderr = failure(can, Actions::Read { pointer: "/missing".to_string() });
    assert!(stderr.contains("pointer not found: /missing"));
    assert!(!stderr.contains("missing passphrase"));
}

#[test]
fn update_without_tty_uses_single_passphrase_line() {
    let can = setup_can_with_secret("/k", b"first", b"pass-123");
    let action = Actions::Update { pointer: "/k".to_string(), length: 4096, generate: false };
    let ran = run(can, false, action, "pass-123\nsecond").unwrap();
    assert_eq!(ran.stdout, b"updated /k");

    let mut can = ran.saved.unwrap();
    can.lock();
    can.unlock(&SecretBytes::from(b"pass-123".to_vec())).expect("unlock");
    let got = can.read("/k").expect("read secret");
    assert_eq!(got.expose_secret(), b"second");
}

#[test]
fn update_missing_secret_fails_before_reading_stdin() {
    let can = setup_can_with_secret("/k", b"first", b"pass-123");
    let action = Actions::Update { pointer: "/missing".to_string(), length: 4096, generate: false };
    let stderr = failure(can, action);
    assert!(stderr.contains("pointer not found: /missing"));
    assert!(!stderr.contains("missing passphrase"));
}

#[test]
fn list_outputs_json_tree_without_passphrase_prompt() {
    let mut can = setup_can_with_secret("/svc/db/password", b"alpha", b"pass-123");
    add_secret(&mut can, "/svc/api/token", b"beta", b"pass-123");
    let ran = run(can, false, Actions::List { pointer: "/svc".to_string() }, "").unwrap();
    let tree = ran.tree.unwrap();
    assert!(tree.pointer("/db").is_some());
    assert!(tree.pointer("/api").is_some());
}

#[test]
fn delete_removes_secret_without_passphrase_prompt() {
    let can = setup_can_with_secret("/k", b"first", b"pass-123");
    let ran = run(can, false, Actions::Delete { pointer: "/k".to_string() }, "").unwrap();
    assert_eq!(ran.stdout, b"deleted /k");

    let mut can = ran.saved.unwrap();
    can.unlock(&SecretBytes::from(b"pass-123".to_vec())).expect("unlock");
    assert!(can.read("/k").is_err());
}

#[test]
fn list_missing_pointer_fails() {
    let can = setup_can_with_secret("/k", b"first", b"pass-123");
    let stderr = failure(can, Actions::List { pointer: "/does-not-exist".to_string() });
    assert!(stderr.contains("pointer not found"));
}

fn new_can() -> Can {
    Can::open_or_create(PathBuf::from("can.json"), Loaded::NotFound).unwrap().0
}

#[test]
fn only_a_new_can_at_a_terminal_confirms_the_passphrase() {
    for (is_new, terminal) in [(false, false), (false, true), (true, false), (true, true)] {
        let action = Actions::Create { pointer: "/k".to_string(), length: 1, generate: false };
        match start(new_can(), is_new, action, terminal).unwrap() {
            Step::UnlockToWrite(writing, confirm) => {
                assert_eq!(confirm, is_new && terminal);
                assert_eq!(writing.mode, WriteMode::Create);
                assert_eq!(writing.pointer, "/k");
                assert_eq!((writing.length, writing.generate), (1, false));
            }
            other => panic!("{other:?}"),
        }
    }
}

#[test]
fn creating_needs_a_passphrase_line() {
    let create = || Actions::Create { pointer: "/k".to_string(), length: 9, generate: false };
    let e = run(new_can(), true, create(), "").err().unwrap();
    assert_eq!(e.message(), "missing passphrase on stdin");
    let e = run(new_can(), true, create(), "\nsecret").err().unwrap();
    assert_eq!(e.message(), "empty passphrase on stdin");
    let e = run(new_can(), true, create(), "pass\n0123456789").err().unwrap();
    assert_eq!(e.message(), "too much data written to pipe; expected at most 9 bytes");
    let ran = run(new_can(), true, create(), "pass\n012345678").unwrap();
    assert_eq!(ran.saved.unwrap().read("/k").unwrap().expose_secret(), b"012345678");
}

#[test]
fn a_wrong_passphrase_reads_nothing() {
    let can = setup_can_with_secret("/k", b"first", b"pass-123");
    let e = run(can, false, Actions::Read { pointer: "/k".to_string() }, "other\n").err().unwrap();
    assert_eq!(e.message(), "decryption failed (wrong passphrase or tampered data)");
}
