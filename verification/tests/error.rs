use tinny::Failure;

#[test]
fn failures_are_reported_in_words() {
    let t = || "T".to_string();
    let reports = [
        (Failure::Unreadable(t()), "failed to read can file: T"),
        (Failure::Malformed(t()), "failed to parse can file: T"),
        (
            Failure::UnsupportedVersion(10),
            "unsupported can file schema version: 10 (expected 1)",
        ),
        (Failure::RootPointer, "pointer must not target the root"),
        (Failure::MissingSlash(t()), "invalid JSON pointer (must start with '/'): T"),
        (Failure::EmptyToken(t()), "invalid JSON pointer token in: T"),
        (Failure::NoToken, "pointer must not target root"),
        (Failure::SecretExists(t()), "secret already exists: T"),
        (Failure::PointerNotFound(t()), "pointer not found: T"),
        (Failure::InvalidSecretRecord(t()), "invalid secret record at pointer: T"),
        (Failure::OddHexLength, "hex string has odd length"),
        (Failure::InvalidHexChar, "invalid hex char"),
        (Failure::InvalidMetadata(t()), "invalid key metadata PHC string: T"),
        (Failure::UnsupportedKdf(t()), "unsupported kdf: T"),
        (
            Failure::HashPresent,
            "invalid key metadata PHC string: hash output must be omitted",
        ),
        (Failure::MissingSalt, "invalid key metadata PHC string: missing salt"),
        (Failure::MissingParam(t()), "invalid key metadata PHC string: missing T param"),
        (Failure::InvalidArgon2Params(t()), "invalid argon2 params: T"),
        (Failure::InvalidSaltEncoding(t()), "invalid salt encoding: T"),
        (Failure::KeyDerivation(t()), "failed to derive key: T"),
        (Failure::LockedForWrite, "can is locked; unlock before write"),
        (Failure::LockedForRead, "can is locked; unlock before read"),
        (Failure::EncryptionKey, "failed to initialize encryption key"),
        (Failure::EncryptionFailed, "encryption failed"),
        (Failure::CiphertextTooShort, "ciphertext is too short"),
        (Failure::DecryptionKey, "failed to initialize decryption key"),
        (
            Failure::DecryptionFailed,
            "decryption failed (wrong passphrase or tampered data)",
        ),
        (Failure::RandomSecret, "Unspecified"),
        (Failure::RandomSalt, "Hardware RNG failure: Unspecified"),
        (Failure::SaltEncoding(t()), "Salt encoding failed: T"),
        (Failure::MissingPassphrase, "missing passphrase on stdin"),
        (Failure::EmptyPassphrase, "empty passphrase on stdin"),
        (
            Failure::TooMuchData(4096),
            "too much data written to pipe; expected at most 4096 bytes",
        ),
        (Failure::CreateTemp(t()), "failed to create temp file: T"),
        (Failure::WriteTemp(t()), "failed to write temp file: T"),
        (Failure::SyncTemp(t()), "failed to sync temp file: T"),
        (
            Failure::Replace(t(), "U".to_string()),
            "failed to atomically replace T with U",
        ),
    ];
    for (failure, report) in reports {
        assert_eq!(failure.message(), report);
    }
}
