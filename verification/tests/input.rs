use tinny::input::{
    read_passphrase_from_pipe, read_secret_from_pipe, secret_of_text, PassphraseSource,
    SecretSource, SECRET_FROM_PIPE_DEFAULT_LENGTH,
};
use tinny::{prompt_passphrase, read_secret, Failure};

#[test]
fn a_pipe_holds_four_kibibytes_by_default() {
    assert_eq!(SECRET_FROM_PIPE_DEFAULT_LENGTH, 4 * 1024);
}

#[test]
fn generating_comes_before_asking() {
    for terminal in [false, true] {
        match read_secret(24, true, terminal).unwrap() {
            SecretSource::Generated(secret) => {
                assert_eq!(secret.expose_secret().len(), 24);
                assert_ne!(secret.expose_secret(), [0u8; 24]);
            }
            other => panic!("{other:?}"),
        }
    }
}

#[test]
fn a_terminal_is_asked_twice_for_a_secret() {
    match read_secret(24, false, true).unwrap() {
        SecretSource::Prompt(prompt) => {
            assert_eq!(prompt.message, "Secret:");
            assert_eq!(
                prompt.help,
                "Type the secret (twice). Use Ctrl+R to toggle visibility."
            );
            let confirmation = prompt.confirmation.unwrap();
            assert_eq!(confirmation.message, "Re-enter secret:");
            assert_eq!(confirmation.mismatch, "Values don't match");
        }
        other => panic!("{other:?}"),
    }
}

#[test]
fn a_pipe_is_read_up_to_the_length() {
    assert!(matches!(read_secret(24, false, false).unwrap(), SecretSource::Pipe(24)));
}

#[test]
fn a_new_passphrase_is_typed_twice() {
    match prompt_passphrase(true, true) {
        PassphraseSource::Prompt(prompt) => {
            assert_eq!(prompt.message, "Passphrase:");
            assert_eq!(
                prompt.help,
                "Type a new passphrase (twice). Use Ctrl+R to toggle visibility."
            );
            let confirmation = prompt.confirmation.unwrap();
            assert_eq!(confirmation.message, "Re-enter passphrase:");
            assert_eq!(confirmation.mismatch, "Values don't match");
        }
        other => panic!("{other:?}"),
    }
}

#[test]
fn a_known_passphrase_is_typed_once() {
    match prompt_passphrase(false, true) {
        PassphraseSource::Prompt(prompt) => {
            assert_eq!(prompt.message, "Passphrase:");
            assert_eq!(prompt.help, "Type the passphrase. Use Ctrl+R to toggle visibility.");
            assert!(prompt.confirmation.is_none());
        }
        other => panic!("{other:?}"),
    }
    assert!(matches!(prompt_passphrase(true, false), PassphraseSource::Pipe));
    assert!(matches!(prompt_passphrase(false, false), PassphraseSource::Pipe));
}

#[test]
fn line_ends_do_not_count() {
    for line in ["pass-123", "pass-123\n", "pass-123\r\n", "pass-123\r\r\n"] {
        assert_eq!(read_passphrase_from_pipe(line).unwrap(), "pass-123");
    }
    assert_eq!(read_passphrase_from_pipe(" a\rb \n").unwrap(), " a\rb ");
}

#[test]
fn a_passphrase_must_be_there() {
    assert!(matches!(read_passphrase_from_pipe("").unwrap_err(), Failure::MissingPassphrase));
    assert!(matches!(read_passphrase_from_pipe("\r\n").unwrap_err(), Failure::EmptyPassphrase));
    assert!(matches!(read_passphrase_from_pipe("\n").unwrap_err(), Failure::EmptyPassphrase));
}

#[test]
fn what_exceeds_the_limit_is_refused() {
    let secret = read_secret_from_pipe(3, vec![1, 2, 3], false).unwrap();
    assert_eq!(secret.expose_secret(), [1, 2, 3]);
    let e = read_secret_from_pipe(3, vec![1, 2, 3], true).unwrap_err();
    assert!(matches!(e, Failure::TooMuchData(3)));
}

#[test]
fn a_text_is_its_bytes() {
    assert_eq!(secret_of_text("aü").expose_secret(), [b'a', 0xc3, 0xbc]);
}
