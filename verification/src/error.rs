//! What can go wrong, and the words in which it is reported.

use crate::text::{decimal_text, joined, push_decimal};
use vstd::prelude::*;

verus! {

/// The schema version that a can file must have.
pub const SCHEMA_VERSION: u32 = 1;

/// A failed operation. `T` is the type of the texts that it quotes: `String`
/// in running code, `Seq<char>` in contracts.
#[derive(Debug)]
pub enum Failure<T> {
    /// The can file, shown as given, could not be read.
    Unreadable(T),
    /// The can file, shown as given, does not parse.
    Malformed(T),
    /// The can file has a schema version other than [`SCHEMA_VERSION`].
    UnsupportedVersion(u32),
    /// The pointer is empty or the lone `/`.
    RootPointer,
    /// The pointer does not start with `/`.
    MissingSlash(T),
    /// The pointer has an empty token.
    EmptyToken(T),
    /// The pointer has no token at all.
    NoToken,
    /// There is a value at the pointer already.
    SecretExists(T),
    /// There is no value at the pointer.
    PointerNotFound(T),
    /// The value at the pointer is not a string.
    InvalidSecretRecord(T),
    /// A hex text has an odd number of bytes.
    OddHexLength,
    /// A hex text has a byte that is no hex digit.
    InvalidHexChar,
    /// The key metadata is not a PHC string, for the reason quoted.
    InvalidMetadata(T),
    /// The key metadata names another key derivation function.
    UnsupportedKdf(T),
    /// The key metadata holds a hash output.
    HashPresent,
    /// The key metadata has no salt.
    MissingSalt,
    /// The key metadata lacks the parameter named.
    MissingParam(T),
    /// Argon2 refuses the parameters, for the reason quoted.
    InvalidArgon2Params(T),
    /// The salt does not decode, for the reason quoted.
    InvalidSaltEncoding(T),
    /// Argon2 refuses to derive a key, for the reason quoted.
    KeyDerivation(T),
    /// A write was tried on a locked can.
    LockedForWrite,
    /// A read was tried on a locked can.
    LockedForRead,
    /// The key does not fit the cipher, found when writing.
    EncryptionKey,
    /// The cipher did not encrypt.
    EncryptionFailed,
    /// The stored bytes cannot hold a nonce and a tag.
    CiphertextTooShort,
    /// The key does not fit the cipher, found when reading.
    DecryptionKey,
    /// The stored bytes are not what the key sealed.
    DecryptionFailed,
    /// No random bytes could be had for a secret.
    RandomSecret,
    /// No random bytes could be had for a salt.
    RandomSalt,
    /// The salt cannot be encoded, for the reason quoted.
    SaltEncoding(T),
    /// Standard input ended before a passphrase line.
    MissingPassphrase,
    /// The passphrase line on standard input is blank.
    EmptyPassphrase,
    /// Standard input holds more bytes than the limit.
    TooMuchData(usize),
    /// The temporary file, shown as given, could not be created.
    CreateTemp(T),
    /// The temporary file, shown as given, could not be written.
    WriteTemp(T),
    /// The temporary file, shown as given, could not be synced.
    SyncTemp(T),
    /// The first file, shown as given, could not be replaced with the second.
    Replace(T, T),
}

/// A failed operation, in running code.
pub type CanError = Failure<String>;

impl View for Failure<String> {
    type V = Failure<Seq<char>>;

    open spec fn view(&self) -> Failure<Seq<char>> {
        match *self {
            Failure::Unreadable(t) => Failure::Unreadable(t@),
            Failure::Malformed(t) => Failure::Malformed(t@),
            Failure::UnsupportedVersion(n) => Failure::UnsupportedVersion(n),
            Failure::RootPointer => Failure::RootPointer,
            Failure::MissingSlash(t) => Failure::MissingSlash(t@),
            Failure::EmptyToken(t) => Failure::EmptyToken(t@),
            Failure::NoToken => Failure::NoToken,
            Failure::SecretExists(t) => Failure::SecretExists(t@),
            Failure::PointerNotFound(t) => Failure::PointerNotFound(t@),
            Failure::InvalidSecretRecord(t) => Failure::InvalidSecretRecord(t@),
            Failure::OddHexLength => Failure::OddHexLength,
            Failure::InvalidHexChar => Failure::InvalidHexChar,
            Failure::InvalidMetadata(t) => Failure::InvalidMetadata(t@),
            Failure::UnsupportedKdf(t) => Failure::UnsupportedKdf(t@),
            Failure::HashPresent => Failure::HashPresent,
            Failure::MissingSalt => Failure::MissingSalt,
            Failure::MissingParam(t) => Failure::MissingParam(t@),
            Failure::InvalidArgon2Params(t) => Failure::InvalidArgon2Params(t@),
            Failure::InvalidSaltEncoding(t) => Failure::InvalidSaltEncoding(t@),
            Failure::KeyDerivation(t) => Failure::KeyDerivation(t@),
            Failure::LockedForWrite => Failure::LockedForWrite,
            Failure::LockedForRead => Failure::LockedForRead,
            Failure::EncryptionKey => Failure::EncryptionKey,
            Failure::EncryptionFailed => Failure::EncryptionFailed,
            Failure::CiphertextTooShort => Failure::CiphertextTooShort,
            Failure::DecryptionKey => Failure::DecryptionKey,
            Failure::DecryptionFailed => Failure::DecryptionFailed,
            Failure::RandomSecret => Failure::RandomSecret,
            Failure::RandomSalt => Failure::RandomSalt,
            Failure::SaltEncoding(t) => Failure::SaltEncoding(t@),
            Failure::MissingPassphrase => Failure::MissingPassphrase,
            Failure::EmptyPassphrase => Failure::EmptyPassphrase,
            Failure::TooMuchData(n) => Failure::TooMuchData(n),
            Failure::CreateTemp(t) => Failure::CreateTemp(t@),
            Failure::WriteTemp(t) => Failure::WriteTemp(t@),
            Failure::SyncTemp(t) => Failure::SyncTemp(t@),
            Failure::Replace(t, u) => Failure::Replace(t@, u@),
        }
    }
}

/// What a result of an operation without a value says: success, or the
/// failure.
pub open spec fn verdict(result: Result<(), CanError>) -> Result<(), Failure<Seq<char>>> {
    match result {
        Ok(()) => Ok(()),
        Err(e) => Err(e@),
    }
}

impl Failure<Seq<char>> {
    /// The report of the failure.
    pub open spec fn text(self) -> Seq<char> {
        match self {
            Failure::Unreadable(t) => "failed to read can file: "@ + t,
            Failure::Malformed(t) => "failed to parse can file: "@ + t,
            Failure::UnsupportedVersion(n) => "unsupported can file schema version: "@
                + decimal_text(n as nat) + " (expected "@ + decimal_text(SCHEMA_VERSION as nat)
                + ")"@,
            Failure::RootPointer => "pointer must not target the root"@,
            Failure::MissingSlash(t) => "invalid JSON pointer (must start with '/'): "@ + t,
            Failure::EmptyToken(t) => "invalid JSON pointer token in: "@ + t,
            Failure::NoToken => "pointer must not target root"@,
            Failure::SecretExists(t) => "secret already exists: "@ + t,
            Failure::PointerNotFound(t) => "pointer not found: "@ + t,
            Failure::InvalidSecretRecord(t) => "invalid secret record at pointer: "@ + t,
            Failure::OddHexLength => "hex string has odd length"@,
            Failure::InvalidHexChar => "invalid hex char"@,
            Failure::InvalidMetadata(t) => "invalid key metadata PHC string: "@ + t,
            Failure::UnsupportedKdf(t) => "unsupported kdf: "@ + t,
            Failure::HashPresent =>
                "invalid key metadata PHC string: hash output must be omitted"@,
            Failure::MissingSalt => "invalid key metadata PHC string: missing salt"@,
            Failure::MissingParam(t) => "invalid key metadata PHC string: missing "@ + t
                + " param"@,
            Failure::InvalidArgon2Params(t) => "invalid argon2 params: "@ + t,
            Failure::InvalidSaltEncoding(t) => "invalid salt encoding: "@ + t,
            Failure::KeyDerivation(t) => "failed to derive key: "@ + t,
            Failure::LockedForWrite => "can is locked; unlock before write"@,
            Failure::LockedForRead => "can is locked; unlock before read"@,
            Failure::EncryptionKey => "failed to initialize encryption key"@,
            Failure::EncryptionFailed => "encryption failed"@,
            Failure::CiphertextTooShort => "ciphertext is too short"@,
            Failure::DecryptionKey => "failed to initialize decryption key"@,
            Failure::DecryptionFailed =>
                "decryption failed (wrong passphrase or tampered data)"@,
            Failure::RandomSecret => "Unspecified"@,
            Failure::RandomSalt => "Hardware RNG failure: Unspecified"@,
            Failure::SaltEncoding(t) => "Salt encoding failed: "@ + t,
            Failure::MissingPassphrase => "missing passphrase on stdin"@,
            Failure::EmptyPassphrase => "empty passphrase on stdin"@,
            Failure::TooMuchData(n) => "too much data written to pipe; expected at most "@
                + decimal_text(n as nat) + " bytes"@,
            Failure::CreateTemp(t) => "failed to create temp file: "@ + t,
            Failure::WriteTemp(t) => "failed to write temp file: "@ + t,
            Failure::SyncTemp(t) => "failed to sync temp file: "@ + t,
            Failure::Replace(t, u) => "failed to atomically replace "@ + t + " with "@ + u,
        }
    }
}

impl Failure<String> {
    /// The report of the failure.
    pub fn message(&self) -> (text: String)
        ensures
            text@ == self@.text(),
    {
        match self {
            Failure::Unreadable(t) => joined("failed to read can file: ", t),
            Failure::Malformed(t) => joined("failed to parse can file: ", t),
            Failure::UnsupportedVersion(n) => {
                let mut text = "unsupported can file schema version: ".to_owned();
                push_decimal(&mut text, *n as u64);
                text.append(" (expected ");
                push_decimal(&mut text, SCHEMA_VERSION as u64);
                text.append(")");
                text
            },
            Failure::RootPointer => "pointer must not target the root".to_owned(),
            Failure::MissingSlash(t) => joined("invalid JSON pointer (must start with '/'): ", t),
            Failure::EmptyToken(t) => joined("invalid JSON pointer token in: ", t),
            Failure::NoToken => "pointer must not target root".to_owned(),
            Failure::SecretExists(t) => joined("secret already exists: ", t),
            Failure::PointerNotFound(t) => joined("pointer not found: ", t),
            Failure::InvalidSecretRecord(t) => joined("invalid secret record at pointer: ", t),
            Failure::OddHexLength => "hex string has odd length".to_owned(),
            Failure::InvalidHexChar => "invalid hex char".to_owned(),
            Failure::InvalidMetadata(t) => joined("invalid key metadata PHC string: ", t),
            Failure::UnsupportedKdf(t) => joined("unsupported kdf: ", t),
            Failure::HashPresent =>
                "invalid key metadata PHC string: hash output must be omitted".to_owned(),
            Failure::MissingSalt => "invalid key metadata PHC string: missing salt".to_owned(),
            Failure::MissingParam(t) => {
                let mut text = joined("invalid key metadata PHC string: missing ", t);
                text.append(" param");
                text
            },
            Failure::InvalidArgon2Params(t) => joined("invalid argon2 params: ", t),
            Failure::InvalidSaltEncoding(t) => joined("invalid salt encoding: ", t),
            Failure::KeyDerivation(t) => joined("failed to derive key: ", t),
            Failure::LockedForWrite => "can is locked; unlock before write".to_owned(),
            Failure::LockedForRead => "can is locked; unlock before read".to_owned(),
            Failure::EncryptionKey => "failed to initialize encryption key".to_owned(),
            Failure::EncryptionFailed => "encryption failed".to_owned(),
            Failure::CiphertextTooShort => "ciphertext is too short".to_owned(),
            Failure::DecryptionKey => "failed to initialize decryption key".to_owned(),
            Failure::DecryptionFailed =>
                "decryption failed (wrong passphrase or tampered data)".to_owned(),
            Failure::RandomSecret => "Unspecified".to_owned(),
            Failure::RandomSalt => "Hardware RNG failure: Unspecified".to_owned(),
            Failure::SaltEncoding(t) => joined("Salt encoding failed: ", t),
            Failure::MissingPassphrase => "missing passphrase on stdin".to_owned(),
            Failure::EmptyPassphrase => "empty passphrase on stdin".to_owned(),
            Failure::TooMuchData(n) => {
                let mut text = "too much data written to pipe; expected at most ".to_owned();
                push_decimal(&mut text, *n as u64);
                text.append(" bytes");
                text
            },
            Failure::CreateTemp(t) => joined("failed to create temp file: ", t),
            Failure::WriteTemp(t) => joined("failed to write temp file: ", t),
            Failure::SyncTemp(t) => joined("failed to sync temp file: ", t),
            Failure::Replace(t, u) => {
                let mut text = joined("failed to atomically replace ", t);
                text.append(" with ");
                text.append(u);
                text
            },
        }
    }
}

/// A failure quotes the texts that it holds.
pub proof fn law_failures_quote_what_they_hold(t: String, u: String, n: u32, limit: usize)
    ensures
        Failure::Unreadable(t)@ == Failure::Unreadable(t@),
        Failure::Malformed(t)@ == Failure::Malformed(t@),
        Failure::MissingSlash(t)@ == Failure::MissingSlash(t@),
        Failure::EmptyToken(t)@ == Failure::EmptyToken(t@),
        Failure::SecretExists(t)@ == Failure::SecretExists(t@),
        Failure::PointerNotFound(t)@ == Failure::PointerNotFound(t@),
        Failure::InvalidSecretRecord(t)@ == Failure::InvalidSecretRecord(t@),
        Failure::InvalidMetadata(t)@ == Failure::InvalidMetadata(t@),
        Failure::UnsupportedKdf(t)@ == Failure::UnsupportedKdf(t@),
        Failure::MissingParam(t)@ == Failure::MissingParam(t@),
        Failure::InvalidArgon2Params(t)@ == Failure::InvalidArgon2Params(t@),
        Failure::InvalidSaltEncoding(t)@ == Failure::InvalidSaltEncoding(t@),
        Failure::KeyDerivation(t)@ == Failure::KeyDerivation(t@),
        Failure::SaltEncoding(t)@ == Failure::SaltEncoding(t@),
        Failure::CreateTemp(t)@ == Failure::CreateTemp(t@),
        Failure::WriteTemp(t)@ == Failure::WriteTemp(t@),
        Failure::SyncTemp(t)@ == Failure::SyncTemp(t@),
        Failure::Replace(t, u)@ == Failure::Replace(t@, u@),
        Failure::<String>::UnsupportedVersion(n)@ == Failure::<Seq<char>>::UnsupportedVersion(n),
        Failure::<String>::TooMuchData(limit)@ == Failure::<Seq<char>>::TooMuchData(limit),
        Failure::<String>::RootPointer@ == Failure::<Seq<char>>::RootPointer,
        Failure::<String>::NoToken@ == Failure::<Seq<char>>::NoToken,
        Failure::<String>::OddHexLength@ == Failure::<Seq<char>>::OddHexLength,
        Failure::<String>::InvalidHexChar@ == Failure::<Seq<char>>::InvalidHexChar,
        Failure::<String>::HashPresent@ == Failure::<Seq<char>>::HashPresent,
        Failure::<String>::MissingSalt@ == Failure::<Seq<char>>::MissingSalt,
        Failure::<String>::LockedForWrite@ == Failure::<Seq<char>>::LockedForWrite,
        Failure::<String>::LockedForRead@ == Failure::<Seq<char>>::LockedForRead,
        Failure::<String>::EncryptionKey@ == Failure::<Seq<char>>::EncryptionKey,
        Failure::<String>::EncryptionFailed@ == Failure::<Seq<char>>::EncryptionFailed,
        Failure::<String>::CiphertextTooShort@ == Failure::<Seq<char>>::CiphertextTooShort,
        Failure::<String>::DecryptionKey@ == Failure::<Seq<char>>::DecryptionKey,
        Failure::<String>::DecryptionFailed@ == Failure::<Seq<char>>::DecryptionFailed,
        Failure::<String>::RandomSecret@ == Failure::<Seq<char>>::RandomSecret,
        Failure::<String>::RandomSalt@ == Failure::<Seq<char>>::RandomSalt,
        Failure::<String>::MissingPassphrase@ == Failure::<Seq<char>>::MissingPassphrase,
        Failure::<String>::EmptyPassphrase@ == Failure::<Seq<char>>::EmptyPassphrase,
{
}

/// A report is a fixed text, with what the failure quotes behind it.
pub proof fn law_reports(t: Seq<char>, u: Seq<char>, n: u32, limit: usize)
    ensures
        Failure::Unreadable(t).text() == "failed to read can file: "@ + t,
        Failure::Malformed(t).text() == "failed to parse can file: "@ + t,
        Failure::MissingSlash(t).text() == "invalid JSON pointer (must start with '/'): "@ + t,
        Failure::EmptyToken(t).text() == "invalid JSON pointer token in: "@ + t,
        Failure::SecretExists(t).text() == "secret already exists: "@ + t,
        Failure::PointerNotFound(t).text() == "pointer not found: "@ + t,
        Failure::InvalidSecretRecord(t).text() == "invalid secret record at pointer: "@ + t,
        Failure::InvalidMetadata(t).text() == "invalid key metadata PHC string: "@ + t,
        Failure::UnsupportedKdf(t).text() == "unsupported kdf: "@ + t,
        Failure::MissingParam(t).text() == "invalid key metadata PHC string: missing "@ + t
            + " param"@,
        Failure::InvalidArgon2Params(t).text() == "invalid argon2 params: "@ + t,
        Failure::InvalidSaltEncoding(t).text() == "invalid salt encoding: "@ + t,
        Failure::KeyDerivation(t).text() == "failed to derive key: "@ + t,
        Failure::SaltEncoding(t).text() == "Salt encoding failed: "@ + t,
        Failure::CreateTemp(t).text() == "failed to create temp file: "@ + t,
        Failure::WriteTemp(t).text() == "failed to write temp file: "@ + t,
        Failure::SyncTemp(t).text() == "failed to sync temp file: "@ + t,
        Failure::Replace(t, u).text() == "failed to atomically replace "@ + t + " with "@ + u,
        Failure::<Seq<char>>::UnsupportedVersion(n).text()
            == "unsupported can file schema version: "@ + decimal_text(n as nat) + " (expected "@
            + decimal_text(1) + ")"@,
        Failure::<Seq<char>>::TooMuchData(limit).text()
            == "too much data written to pipe; expected at most "@ + decimal_text(limit as nat)
            + " bytes"@,
        Failure::<Seq<char>>::RootPointer.text() == "pointer must not target the root"@,
        Failure::<Seq<char>>::NoToken.text() == "pointer must not target root"@,
        Failure::<Seq<char>>::OddHexLength.text() == "hex string has odd length"@,
        Failure::<Seq<char>>::InvalidHexChar.text() == "invalid hex char"@,
        Failure::<Seq<char>>::HashPresent.text()
            == "invalid key metadata PHC string: hash output must be omitted"@,
        Failure::<Seq<char>>::MissingSalt.text()
            == "invalid key metadata PHC string: missing salt"@,
        Failure::<Seq<char>>::LockedForWrite.text() == "can is locked; unlock before write"@,
        Failure::<Seq<char>>::LockedForRead.text() == "can is locked; unlock before read"@,
        Failure::<Seq<char>>::EncryptionKey.text() == "failed to initialize encryption key"@,
        Failure::<Seq<char>>::EncryptionFailed.text() == "encryption failed"@,
        Failure::<Seq<char>>::CiphertextTooShort.text() == "ciphertext is too short"@,
        Failure::<Seq<char>>::DecryptionKey.text() == "failed to initialize decryption key"@,
        Failure::<Seq<char>>::DecryptionFailed.text()
            == "decryption failed (wrong passphrase or tampered data)"@,
        Failure::<Seq<char>>::RandomSecret.text() == "Unspecified"@,
        Failure::<Seq<char>>::RandomSalt.text() == "Hardware RNG failure: Unspecified"@,
        Failure::<Seq<char>>::MissingPassphrase.text() == "missing passphrase on stdin"@,
        Failure::<Seq<char>>::EmptyPassphrase.text() == "empty passphrase on stdin"@,
{
}

/// A verdict is success or the failure that was returned.
pub proof fn law_verdicts(e: CanError)
    ensures
        verdict(Ok(())) == Ok::<(), Failure<Seq<char>>>(()),
        verdict(Err(e)) == Err::<(), Failure<Seq<char>>>(e@),
{
}

} // verus!
