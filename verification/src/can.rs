//! A can: a file of secrets, open in memory.

use crate::cipher::{seal_refused, siv_opened, NONCE_LEN, TAG_LEN};
use crate::error::{verdict, CanError, Failure, SCHEMA_VERSION};
use crate::hex::{hex_bytes, hex_decode, hex_encode, hex_text, law_hex_roundtrip};
use crate::kdf::{KEY_LEN, SALT_LEN};
use crate::opener::{
    derived_key, fresh_meta, is_fresh_meta, seal_failure, unsealed, CanOpener, OpenerState,
};
use crate::pointer::{
    decode_pointer_tokens, ensure_non_root_pointer, lemma_tokens_nonempty, refusal, steps, tokens,
};
use crate::secret::{draw_failed, drawn, SecretBytes};
use crate::tree::{
    law_set_then_found, remove_value_at_pointer, upsert_value_at_pointer, value_at_pointer,
    with_value, without_value,
};
use crate::value::{Json, Object, Value};
use std::path::PathBuf;
use vstd::prelude::*;

verus! {

/// The path of a file. The library hands it on without looking into it.
#[verifier::external_type_specification]
#[verifier::external_body]
pub struct ExPathBuf(std::path::PathBuf);

/// What a can file holds.
#[derive(Debug)]
pub struct CanFile {
    /// The schema version.
    pub version: u32,
    /// The metadata of the key, and the key while the can is unlocked.
    pub key: CanOpener,
    /// The tree of secrets. A secret is a string, the hex notation of its
    /// sealed bytes.
    pub secrets: Value,
}

/// What a can file is.
#[verifier::ext_equal]
pub struct FileState {
    pub version: u32,
    pub key: OpenerState,
    pub secrets: Json,
}

impl View for CanFile {
    type V = FileState;

    open spec fn view(&self) -> FileState {
        FileState { version: self.version, key: self.key@, secrets: self.secrets@ }
    }
}

impl Clone for CanFile {
    fn clone(&self) -> (copy: CanFile)
        ensures
            copy@ == self@,
    {
        CanFile { version: self.version, key: self.key.clone(), secrets: self.secrets.clone() }
    }
}

/// What of a can file is saved: all but the key.
#[derive(Debug)]
pub struct SavedFile {
    /// The schema version.
    pub version: u32,
    /// The metadata of the key.
    pub meta: String,
    /// The tree of secrets.
    pub secrets: Value,
}

/// What is saved.
#[verifier::ext_equal]
pub struct SavedState {
    pub version: u32,
    pub meta: Seq<char>,
    pub secrets: Json,
}

impl View for SavedFile {
    type V = SavedState;

    open spec fn view(&self) -> SavedState {
        SavedState { version: self.version, meta: self.meta@, secrets: self.secrets@ }
    }
}

/// What of a file is saved.
pub open spec fn saved_state(file: FileState) -> SavedState {
    SavedState { version: file.version, meta: file.key.meta, secrets: file.secrets }
}

/// The file that is loaded from what was saved. It is locked.
pub open spec fn loaded_state(saved: SavedState) -> FileState {
    FileState {
        version: saved.version,
        key: OpenerState { meta: saved.meta, key: None },
        secrets: saved.secrets,
    }
}

/// What opening gives of what was saved.
pub open spec fn opened_state(saved: SavedState) -> Result<FileState, Failure<Seq<char>>> {
    if saved.version == SCHEMA_VERSION {
        Ok(loaded_state(saved))
    } else {
        Err(Failure::UnsupportedVersion(saved.version))
    }
}

impl CanFile {
    /// What of the file is saved.
    pub fn saved(&self) -> (saved: SavedFile)
        ensures
            saved@ == saved_state(self@),
    {
        SavedFile {
            version: self.version,
            meta: self.key.meta.clone(),
            secrets: self.secrets.clone(),
        }
    }

    /// The file that is loaded from its saved parts, locked.
    pub fn loaded(version: u32, meta: String, secrets: Value) -> (file: CanFile)
        ensures
            file@ == (FileState {
                version,
                key: OpenerState { meta: meta@, key: None },
                secrets: secrets@,
            }),
    {
        CanFile { version, key: CanOpener { meta, key: None }, secrets }
    }
}

/// A can that is open, locked or unlocked.
#[derive(Debug)]
pub struct Can {
    path: PathBuf,
    file: CanFile,
}

/// What an open can is.
#[verifier::ext_equal]
pub struct CanState {
    pub path: PathBuf,
    pub file: FileState,
}

impl View for Can {
    type V = CanState;

    closed spec fn view(&self) -> CanState {
        CanState { path: self.path, file: self.file@ }
    }
}

/// What came of loading a can file. The texts show the file's path.
#[derive(Debug)]
pub enum Loaded {
    /// The file was read and parsed.
    File(SavedFile),
    /// There is no such file.
    NotFound,
    /// The file could not be read.
    Unreadable(String),
    /// The file does not parse.
    Malformed(String),
}

/// The file that a new can starts from, with the given metadata.
pub open spec fn new_file(meta: Seq<char>) -> FileState {
    FileState {
        version: SCHEMA_VERSION,
        key: OpenerState { meta, key: None },
        secrets: Json::Object(Map::empty()),
    }
}

/// The file with another key, or with none.
pub open spec fn with_key(file: FileState, key: Option<Seq<u8>>) -> FileState {
    FileState { key: OpenerState { key, ..file.key }, ..file }
}

/// The string at `pointer`.
pub open spec fn record_at(secrets: Json, pointer: Seq<char>) -> Result<
    Seq<char>,
    Failure<Seq<char>>,
> {
    match value_at_pointer(secrets, pointer) {
        Some(Json::String(text)) => Ok(text),
        Some(_) => Err(Failure::InvalidSecretRecord(pointer)),
        None => Err(Failure::PointerNotFound(pointer)),
    }
}

/// Why no secret can be created at `pointer`, if none can: the pointer names
/// no place for one, or something is there already.
pub open spec fn create_refusal(secrets: Json, pointer: Seq<char>) -> Option<Failure<Seq<char>>> {
    match refusal(pointer) {
        Some(e) => Some(e),
        None => match tokens(pointer) {
            Err(e) => Some(e),
            Ok(_) => match value_at_pointer(secrets, pointer) {
                Some(_) => Some(Failure::SecretExists(pointer)),
                None => None,
            },
        },
    }
}

/// Why no secret can be updated at `pointer`, if none can: the pointer names
/// no place for one, or there is none.
pub open spec fn update_refusal(secrets: Json, pointer: Seq<char>) -> Option<Failure<Seq<char>>> {
    match refusal(pointer) {
        Some(e) => Some(e),
        None => match tokens(pointer) {
            Err(e) => Some(e),
            Ok(_) => match record_at(secrets, pointer) {
                Ok(_) => None,
                Err(e) => Some(e),
            },
        },
    }
}

/// Why no secret can be read at `pointer`, if none can, as far as it shows
/// without the key.
pub open spec fn read_refusal(secrets: Json, pointer: Seq<char>) -> Option<Failure<Seq<char>>> {
    match refusal(pointer) {
        Some(e) => Some(e),
        None => match record_at(secrets, pointer) {
            Ok(_) => None,
            Err(e) => Some(e),
        },
    }
}

/// What reading the secret at `pointer` gives.
pub open spec fn secret_at(file: FileState, pointer: Seq<char>) -> Result<
    Seq<u8>,
    Failure<Seq<char>>,
> {
    match read_refusal(file.secrets, pointer) {
        Some(e) => Err(e),
        None => match hex_bytes(
            vstd::utf8::encode_utf8(record_at(file.secrets, pointer)->Ok_0),
        ) {
            Err(e) => Err(e),
            Ok(bytes) => unsealed(file.key.key, bytes),
        },
    }
}

/// What listing at `pointer` gives.
pub open spec fn listed(secrets: Json, pointer: Seq<char>) -> Result<Json, Failure<Seq<char>>> {
    match value_at_pointer(secrets, pointer) {
        Some(value) => Ok(value),
        None => Err(Failure::PointerNotFound(pointer)),
    }
}

/// What storing sealed bytes at `pointer` makes of the tree.
pub open spec fn stored(secrets: Json, pointer: Seq<char>, sealed: Seq<u8>) -> Result<
    Json,
    Failure<Seq<char>>,
> {
    match tokens(pointer) {
        Err(e) => Err(e),
        Ok(keys) => if keys.len() == 0 {
            Err(Failure::NoToken)
        } else {
            Ok(with_value(secrets, keys, Json::String(hex_text(sealed))))
        },
    }
}

/// What deleting at `pointer` makes of the tree.
pub open spec fn deleted(secrets: Json, pointer: Seq<char>) -> Result<Json, Failure<Seq<char>>> {
    match refusal(pointer) {
        Some(e) => Err(e),
        None => match tokens(pointer) {
            Err(e) => Err(e),
            Ok(keys) => match without_value(secrets, keys) {
                Some(rest) => Ok(rest),
                None => Err(Failure::PointerNotFound(pointer)),
            },
        },
    }
}

/// Whether `sealed` unseals to `secret`, and `after` is `before` with it stored
/// at `pointer`.
pub open spec fn written_as(
    before: FileState,
    after: FileState,
    pointer: Seq<char>,
    secret: Seq<u8>,
    sealed: Seq<u8>,
) -> bool {
    &&& unsealed(before.key.key, sealed) == Ok::<Seq<u8>, Failure<Seq<char>>>(secret)
    &&& sealed.len() == NONCE_LEN + secret.len() + TAG_LEN
    &&& stored(before.secrets, pointer, sealed) is Ok
    &&& after == (FileState { secrets: stored(before.secrets, pointer, sealed)->Ok_0, ..before })
}

/// Whether `after` is `before` with `secret` stored at `pointer`, sealed.
pub open spec fn written(
    before: FileState,
    after: FileState,
    pointer: Seq<char>,
    secret: Seq<u8>,
) -> bool {
    exists|sealed: Seq<u8>| written_as(before, after, pointer, secret, sealed)
}

/// What sealing `secret` and storing it at `pointer` may come to. Without the
/// right key it fails. With it the cipher may fail to seal the secret; if it
/// does not, the secret is written. A failure changes nothing.
pub open spec fn insertion(
    before: FileState,
    after: FileState,
    pointer: Seq<char>,
    secret: Seq<u8>,
    outcome: Result<(), Failure<Seq<char>>>,
) -> bool {
    match outcome {
        Ok(()) => written(before, after, pointer, secret) && secret_at(after, pointer) == Ok::<
            Seq<u8>,
            Failure<Seq<char>>,
        >(secret),
        Err(e) => {
            &&& after == before
            &&& e == seal_failure(before.key.key)
            &&& e is EncryptionFailed ==> seal_refused(before.key.key->0, secret)
        },
    }
}

/// Whether a write did what it is for, said of the cipher and of the tree: with
/// a key of the cipher's it fails only where the cipher failed to seal this
/// secret under this key; otherwise there is, at the end of the path, the hex
/// notation of bytes that the cipher opens to the secret.
pub open spec fn writes_or_cipher_fails(
    before: FileState,
    after: FileState,
    pointer: Seq<char>,
    secret: Seq<u8>,
    outcome: Result<(), Failure<Seq<char>>>,
) -> bool {
    match before.key.key {
        None => outcome == Err::<(), Failure<Seq<char>>>(Failure::LockedForWrite) && after
            == before,
        Some(key) => if key.len() != KEY_LEN {
            outcome == Err::<(), Failure<Seq<char>>>(Failure::EncryptionKey) && after == before
        } else {
            match outcome {
                Err(e) => {
                    &&& e == Failure::<Seq<char>>::EncryptionFailed
                    &&& seal_refused(key, secret)
                    &&& after == before
                },
                Ok(()) => {
                    &&& after.version == before.version
                    &&& after.key == before.key
                    &&& exists|sealed: Seq<u8>|
                        {
                            &&& sealed.len() == NONCE_LEN + secret.len() + TAG_LEN
                            &&& siv_opened(
                                key,
                                sealed.take(NONCE_LEN as int),
                                sealed.skip(NONCE_LEN as int),
                            ) == Some(secret)
                            &&& after.secrets == with_value(
                                before.secrets,
                                steps(pointer)->0,
                                Json::String(#[trigger] hex_text(sealed)),
                            )
                        }
                },
            }
        },
    }
}

impl Can {
    /// Opens what was loaded, or a new can where there is no file. The flag
    /// says which.
    pub fn open_or_create(path: PathBuf, loaded: Loaded) -> (opened: Result<(Can, bool), CanError>)
        ensures
            match loaded {
                Loaded::File(saved) => match opened_state(saved@) {
                    Ok(file) => {
                        &&& opened is Ok
                        &&& opened->Ok_0.0@ == (CanState { path, file })
                        &&& !opened->Ok_0.1
                    },
                    Err(e) => opened is Err && opened->Err_0@ == e,
                },
                Loaded::NotFound => match opened {
                    Ok((can, is_new)) => {
                        &&& is_new
                        &&& exists|salt: Seq<u8>|
                            {
                                &&& salt.len() == SALT_LEN
                                &&& drawn(salt)
                                &&& can@.file.key.meta == #[trigger] fresh_meta(salt)
                            }
                        &&& can@ == (CanState { path, file: new_file(can@.file.key.meta) })
                        &&& is_fresh_meta(can@.file.key.meta)
                    },
                    Err(e) => e@ == Failure::<Seq<char>>::RandomSalt && draw_failed(
                        SALT_LEN as nat,
                    ),
                },
                Loaded::Unreadable(shown) => opened is Err && opened->Err_0@
                    == Failure::Unreadable(shown@),
                Loaded::Malformed(shown) => opened is Err && opened->Err_0@ == Failure::Malformed(
                    shown@,
                ),
            },
    {
        match loaded {
            Loaded::File(saved) => {
                if saved.version != SCHEMA_VERSION {
                    return Err(Failure::UnsupportedVersion(saved.version));
                }
                let file = CanFile::loaded(saved.version, saved.meta, saved.secrets);
                Ok((Can { path, file }, false))
            },
            Loaded::NotFound => Ok((Can::with_opener(path, CanOpener::new()?), true)),
            Loaded::Unreadable(shown) => Err(Failure::Unreadable(shown)),
            Loaded::Malformed(shown) => Err(Failure::Malformed(shown)),
        }
    }

    /// A can without secrets.
    pub fn with_opener(path: PathBuf, key: CanOpener) -> (can: Can)
        ensures
            can@ == (CanState {
                path,
                file: FileState {
                    version: SCHEMA_VERSION,
                    key: key@,
                    secrets: Json::Object(Map::empty()),
                },
            }),
    {
        let secrets = Value::Object(Object::new());
        Can { path, file: CanFile { version: SCHEMA_VERSION, key, secrets } }
    }

    /// Where the can is saved.
    pub fn path(&self) -> (path: &PathBuf)
        ensures
            *path == self@.path,
    {
        &self.path
    }

    /// What is saved.
    pub fn file(&self) -> (file: &CanFile)
        ensures
            file@ == self@.file,
    {
        &self.file
    }

    /// Derives the key from the passphrase. A failure leaves the can as it
    /// was. A new can never fails, unless the passphrase outgrows what Argon2
    /// takes.
    pub fn unlock(&mut self, passphrase: &SecretBytes) -> (result: Result<(), CanError>)
        ensures
            match derived_key(old(self)@.file.key.meta, passphrase@) {
                Ok(key) => {
                    &&& result is Ok
                    &&& final(self)@ == (CanState {
                        file: with_key(old(self)@.file, Some(key)),
                        ..old(self)@
                    })
                    &&& seal_failure(Some(key)) is EncryptionFailed
                },
                Err(e) => result is Err && result->Err_0@ == e && final(self)@ == old(self)@,
            },
            is_fresh_meta(old(self)@.file.key.meta) && passphrase@.len() <= 0xffff_ffff
                ==> result is Ok,
    {
        self.file.key.unlock(passphrase)
    }

    /// Discards the key.
    pub fn lock(&mut self)
        ensures
            final(self)@ == (CanState { file: with_key(old(self)@.file, None), ..old(self)@ }),
    {
        self.file.key.lock();
    }

    /// Accepts a pointer at which a secret can be created.
    pub fn validate_create(&self, pointer: &str) -> (result: Result<(), CanError>)
        ensures
            match create_refusal(self@.file.secrets, pointer@) {
                None => result is Ok,
                Some(e) => result is Err && result->Err_0@ == e,
            },
    {
        ensure_non_root_pointer(pointer)?;
        decode_pointer_tokens(pointer)?;
        if self.file.secrets.pointer(pointer).is_some() {
            return Err(Failure::SecretExists(pointer.to_owned()));
        }
        Ok(())
    }

    /// Accepts a pointer at which there is a secret to read.
    pub fn validate_read(&self, pointer: &str) -> (result: Result<(), CanError>)
        ensures
            match read_refusal(self@.file.secrets, pointer@) {
                None => result is Ok,
                Some(e) => result is Err && result->Err_0@ == e,
            },
    {
        ensure_non_root_pointer(pointer)?;
        match self.ciphertext_hex_at(pointer) {
            Ok(_) => Ok(()),
            Err(e) => Err(e),
        }
    }

    /// Accepts a pointer at which there is a secret to update.
    pub fn validate_update(&self, pointer: &str) -> (result: Result<(), CanError>)
        ensures
            match update_refusal(self@.file.secrets, pointer@) {
                None => result is Ok,
                Some(e) => result is Err && result->Err_0@ == e,
            },
    {
        ensure_non_root_pointer(pointer)?;
        decode_pointer_tokens(pointer)?;
        match self.ciphertext_hex_at(pointer) {
            Ok(_) => Ok(()),
            Err(e) => Err(e),
        }
    }

    /// Seals a secret and stores it where there is nothing yet. A failure
    /// leaves the can as it was.
    pub fn create(&mut self, pointer: &str, secret: SecretBytes) -> (result: Result<(), CanError>)
        ensures
            final(self)@.path == old(self)@.path,
            match create_refusal(old(self)@.file.secrets, pointer@) {
                Some(e) => result is Err && result->Err_0@ == e && final(self)@ == old(self)@,
                None => insertion(
                    old(self)@.file,
                    final(self)@.file,
                    pointer@,
                    secret@,
                    verdict(result),
                ),
            },
            create_refusal(old(self)@.file.secrets, pointer@) is None ==> writes_or_cipher_fails(
                old(self)@.file,
                final(self)@.file,
                pointer@,
                secret@,
                verdict(result),
            ),
    {
        self.validate_create(pointer)?;
        self.insert_secret(pointer, secret)
    }

    /// Reads the secret at a pointer.
    pub fn read(&self, pointer: &str) -> (secret: Result<SecretBytes, CanError>)
        ensures
            match secret {
                Ok(s) => secret_at(self@.file, pointer@) == Ok::<Seq<u8>, Failure<Seq<char>>>(s@),
                Err(e) => secret_at(self@.file, pointer@) == Err::<Seq<u8>, Failure<Seq<char>>>(
                    e@,
                ),
            },
    {
        self.validate_read(pointer)?;
        let text = self.ciphertext_hex_at(pointer)?;
        let bytes = hex_decode(text.as_str())?;
        self.file.key.unseal(bytes.as_slice())
    }

    /// Seals a secret and stores it in place of the one that is there. A failure
    /// leaves the can as it was.
    pub fn update(&mut self, pointer: &str, secret: SecretBytes) -> (result: Result<(), CanError>)
        ensures
            final(self)@.path == old(self)@.path,
            match update_refusal(old(self)@.file.secrets, pointer@) {
                Some(e) => result is Err && result->Err_0@ == e && final(self)@ == old(self)@,
                None => insertion(
                    old(self)@.file,
                    final(self)@.file,
                    pointer@,
                    secret@,
                    verdict(result),
                ),
            },
            update_refusal(old(self)@.file.secrets, pointer@) is None ==> writes_or_cipher_fails(
                old(self)@.file,
                final(self)@.file,
                pointer@,
                secret@,
                verdict(result),
            ),
    {
        self.validate_update(pointer)?;
        self.insert_secret(pointer, secret)
    }

    /// Removes the secret or the subtree at a pointer. A failure leaves the
    /// can as it was.
    pub fn delete(&mut self, pointer: &str) -> (result: Result<(), CanError>)
        ensures
            match deleted(old(self)@.file.secrets, pointer@) {
                Ok(secrets) => result is Ok && final(self)@ == (CanState {
                    file: FileState { secrets, ..old(self)@.file },
                    ..old(self)@
                }),
                Err(e) => result is Err && result->Err_0@ == e && final(self)@ == old(self)@,
            },
    {
        ensure_non_root_pointer(pointer)?;
        proof {
            if tokens(pointer@) is Ok {
                lemma_tokens_nonempty(pointer@);
            }
        }
        remove_value_at_pointer(&mut self.file.secrets, pointer)
    }

    /// The subtree at a pointer, with the secrets as they are stored. The
    /// empty pointer names the whole tree.
    pub fn list(&self, pointer: &str) -> (value: Result<Value, CanError>)
        ensures
            match value {
                Ok(v) => listed(self@.file.secrets, pointer@) == Ok::<Json, Failure<Seq<char>>>(v@),
                Err(e) => listed(self@.file.secrets, pointer@) == Err::<Json, Failure<Seq<char>>>(
                    e@,
                ),
            },
    {
        if pointer.is_empty() {
            return Ok(self.file.secrets.clone());
        }
        match self.file.secrets.pointer(pointer) {
            Some(value) => Ok(value.clone()),
            None => Err(Failure::PointerNotFound(pointer.to_owned())),
        }
    }

    /// Stores sealed bytes at a pointer, in hex notation.
    pub fn store_sealed(&mut self, pointer: &str, sealed: &[u8]) -> (result: Result<(), CanError>)
        ensures
            match stored(old(self)@.file.secrets, pointer@, sealed@) {
                Ok(secrets) => result is Ok && final(self)@ == (CanState {
                    file: FileState { secrets, ..old(self)@.file },
                    ..old(self)@
                }),
                Err(e) => result is Err && result->Err_0@ == e && final(self)@ == old(self)@,
            },
    {
        let value = Value::String(hex_encode(sealed));
        upsert_value_at_pointer(&mut self.file.secrets, pointer, value)
    }

    fn insert_secret(&mut self, pointer: &str, secret: SecretBytes) -> (result: Result<
        (),
        CanError,
    >)
        requires
            refusal(pointer@) is None,
            tokens(pointer@) is Ok,
        ensures
            final(self)@.path == old(self)@.path,
            insertion(
                old(self)@.file,
                final(self)@.file,
                pointer@,
                secret@,
                verdict(result),
            ),
            writes_or_cipher_fails(
                old(self)@.file,
                final(self)@.file,
                pointer@,
                secret@,
                verdict(result),
            ),
    {
        let ghost plaintext = secret@;
        let mut in_out = secret;
        let sealed = self.file.key.seal(&mut in_out)?;
        let result = self.store_sealed(pointer, sealed.as_slice());
        proof {
            lemma_tokens_nonempty(pointer@);
            assert(written_as(old(self)@.file, self@.file, pointer@, plaintext, sealed@));
            law_written_is_read(old(self)@.file, self@.file, pointer@, plaintext);
        }
        result
    }

    fn ciphertext_hex_at(&self, pointer: &str) -> (text: Result<String, CanError>)
        ensures
            match text {
                Ok(t) => record_at(self@.file.secrets, pointer@) == Ok::<
                    Seq<char>,
                    Failure<Seq<char>>,
                >(t@),
                Err(e) => record_at(self@.file.secrets, pointer@) == Err::<
                    Seq<char>,
                    Failure<Seq<char>>,
                >(e@),
            },
    {
        match self.file.secrets.pointer(pointer) {
            None => Err(Failure::PointerNotFound(pointer.to_owned())),
            Some(Value::String(text)) => Ok(text.clone()),
            Some(_) => Err(Failure::InvalidSecretRecord(pointer.to_owned())),
        }
    }
}

/// A secret that was written is what reading gives, for as long as the key
/// and the place stay.
pub proof fn law_written_is_read(
    before: FileState,
    after: FileState,
    pointer: Seq<char>,
    secret: Seq<u8>,
)
    requires
        refusal(pointer) is None,
        written(before, after, pointer, secret),
    ensures
        secret_at(after, pointer) == Ok::<Seq<u8>, Failure<Seq<char>>>(secret),
{
    let sealed = choose|sealed: Seq<u8>| written_as(before, after, pointer, secret, sealed);
    law_set_then_found(before.secrets, tokens(pointer)->Ok_0, Json::String(hex_text(sealed)));
    law_hex_roundtrip(sealed);
}

} // verus!
