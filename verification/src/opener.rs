//! The key of a can: how it is derived, and how it seals and unseals.

use crate::b64::{b64_bytes, b64_text, law_b64_form, law_b64_roundtrip};
use crate::cipher::{
    check_key, frame, law_frame_roundtrip, open_in_place, seal_refused, siv_opened, try_seal,
    unframe, NONCE_LEN, TAG_LEN,
};
use crate::error::{CanError, Failure};
use crate::kdf::{
    argon2id, argon2id_phc, decode_salt, default_costs, hash_password_into, inputs_fault,
    is_phc_salt, kdf_choice, make_salt, metadata_settings, params_fault, phc_fields, KdfChoice,
    KdfSettings, ARGON2_VERSION, KEY_LEN, SALT_LEN,
};
use crate::secret::{draw_failed, drawn, SecretBytes};
use crate::text::{decimal_text, push_decimal};
use vstd::prelude::*;
use vstd::slice::slice_to_vec;

verus! {

/// Derives the key from a passphrase, and seals and unseals secrets with it.
#[derive(Debug)]
pub struct CanOpener {
    /// The parameters and the salt of Argon2id as a PHC string.
    pub meta: String,
    /// The key, while the can is unlocked.
    pub key: Option<SecretBytes>,
}

/// What an opener is.
#[verifier::ext_equal]
pub struct OpenerState {
    pub meta: Seq<char>,
    pub key: Option<Seq<u8>>,
}

impl View for CanOpener {
    type V = OpenerState;

    open spec fn view(&self) -> OpenerState {
        OpenerState {
            meta: self.meta@,
            key: match self.key {
                Some(key) => Some(key@),
                None => None,
            },
        }
    }
}

/// The metadata of a new can with the given salt.
pub open spec fn fresh_meta(salt: Seq<u8>) -> Seq<char> {
    argon2id_phc(ARGON2_VERSION, 19456, 2, 1, b64_text(salt))
}

/// Whether `meta` is the metadata of a new can.
pub open spec fn is_fresh_meta(meta: Seq<char>) -> bool {
    exists|salt: Seq<u8>| salt.len() == SALT_LEN && meta == #[trigger] fresh_meta(salt)
}

/// The key that a passphrase gives under the metadata, or why there is none.
pub open spec fn derived_key(meta: Seq<char>, passphrase: Seq<u8>) -> Result<
    Seq<u8>,
    Failure<Seq<char>>,
> {
    match phc_fields(meta) {
        Err(reason) => Err(Failure::InvalidMetadata(reason)),
        Ok(fields) => match kdf_choice(fields) {
            Err(e) => Err(e),
            Ok(choice) => match b64_bytes(choice.salt) {
                None => Err(Failure::InvalidSaltEncoding("invalid Base64 encoding"@)),
                Some(salt) => match inputs_fault(passphrase.len(), salt.len()) {
                    Some(reason) => Err(Failure::KeyDerivation(reason)),
                    None => Ok(
                        argon2id(
                            passphrase,
                            salt,
                            choice.m_cost,
                            choice.t_cost,
                            choice.p_cost,
                            KEY_LEN as nat,
                        ),
                    ),
                },
            },
        },
    }
}

/// Why sealing with this key fails: it does where there is no key or not one
/// of the cipher's, and otherwise only where the cipher fails.
pub open spec fn seal_failure(key: Option<Seq<u8>>) -> Failure<Seq<char>> {
    match key {
        None => Failure::LockedForWrite,
        Some(k) => if k.len() != KEY_LEN {
            Failure::EncryptionKey
        } else {
            Failure::EncryptionFailed
        },
    }
}

/// What unsealing stored bytes with this key gives.
pub open spec fn unsealed(key: Option<Seq<u8>>, bytes: Seq<u8>) -> Result<
    Seq<u8>,
    Failure<Seq<char>>,
> {
    match key {
        None => Err(Failure::LockedForRead),
        Some(k) => if bytes.len() < NONCE_LEN + TAG_LEN {
            Err(Failure::CiphertextTooShort)
        } else if k.len() != KEY_LEN {
            Err(Failure::DecryptionKey)
        } else {
            match siv_opened(k, bytes.take(NONCE_LEN as int), bytes.skip(NONCE_LEN as int)) {
                Some(plaintext) => Ok(plaintext),
                None => Err(Failure::DecryptionFailed),
            }
        },
    }
}

/// The key that a passphrase gives with a salt, as it was decoded or failed to
/// be, and costs that Argon2 accepts.
pub fn key_from(
    passphrase: &SecretBytes,
    salt: Result<Vec<u8>, String>,
    settings: &KdfSettings,
) -> (key: Result<SecretBytes, CanError>)
    requires
        params_fault(settings.m_cost, settings.t_cost, settings.p_cost, KEY_LEN as nat) is None,
    ensures
        match salt {
            Err(reason) => key is Err && key->Err_0@ == Failure::InvalidSaltEncoding(reason@),
            Ok(bytes) => match inputs_fault(passphrase@.len(), bytes@.len()) {
                Some(reason) => key is Err && key->Err_0@ == Failure::KeyDerivation(reason),
                None => {
                    &&& key is Ok
                    &&& key->Ok_0@ == argon2id(
                        passphrase@,
                        bytes@,
                        settings.m_cost,
                        settings.t_cost,
                        settings.p_cost,
                        KEY_LEN as nat,
                    )
                    &&& key->Ok_0@.len() == KEY_LEN
                },
            },
        },
{
    let bytes = match salt {
        Ok(bytes) => bytes,
        Err(reason) => {
            return Err(Failure::InvalidSaltEncoding(reason));
        },
    };
    let mut key = SecretBytes::from(vec![0u8; KEY_LEN]);
    match hash_password_into(
        passphrase.expose_secret(),
        &bytes,
        settings.m_cost,
        settings.t_cost,
        settings.p_cost,
        key.expose_secret_mut(),
    ) {
        Ok(()) => Ok(key),
        Err(reason) => Err(Failure::KeyDerivation(reason)),
    }
}

impl CanOpener {
    /// An opener with a fresh salt and the default costs, locked. It fails only
    /// where no random bytes can be had.
    pub fn new() -> (opener: Result<CanOpener, CanError>)
        ensures
            match opener {
                Ok(o) => {
                    &&& o@.key is None
                    &&& exists|salt: Seq<u8>|
                        {
                            &&& salt.len() == SALT_LEN
                            &&& drawn(salt)
                            &&& o@.meta == #[trigger] fresh_meta(salt)
                        }
                    &&& is_fresh_meta(o@.meta)
                },
                Err(e) => e@ == Failure::<Seq<char>>::RandomSalt && draw_failed(SALT_LEN as nat),
            },
    {
        let salt = make_salt()?;
        proof {
            let bytes = choose|bytes: Seq<u8>|
                bytes.len() == SALT_LEN && drawn(bytes) && salt@ == #[trigger] b64_text(bytes);
            assert(is_fresh_meta(fresh_meta(bytes)));
        }
        Ok(CanOpener::with_salt(salt.as_str()))
    }

    /// An opener with the given encoded salt and the default costs, locked.
    pub fn with_salt(salt: &str) -> (opener: CanOpener)
        ensures
            opener@ == (OpenerState {
                meta: argon2id_phc(ARGON2_VERSION, 19456, 2, 1, salt@),
                key: None,
            }),
    {
        let (m, t, p): (u32, u32, u32) = default_costs();
        let mut meta = "$argon2id$v=".to_owned();
        push_decimal(&mut meta, ARGON2_VERSION as u64);
        meta.append("$m=");
        push_decimal(&mut meta, m as u64);
        meta.append(",t=");
        push_decimal(&mut meta, t as u64);
        meta.append(",p=");
        push_decimal(&mut meta, p as u64);
        meta.append("$");
        meta.append(salt);
        CanOpener { meta, key: None }
    }

    /// Derives the key from the passphrase. A failure leaves the opener as it
    /// was. The metadata of a new can never fails, unless the passphrase
    /// outgrows what Argon2 takes.
    pub fn unlock(&mut self, passphrase: &SecretBytes) -> (result: Result<(), CanError>)
        ensures
            final(self)@.meta == old(self)@.meta,
            match derived_key(old(self)@.meta, passphrase@) {
                Ok(key) => result is Ok && final(self)@.key == Some(key) && key.len() == KEY_LEN,
                Err(e) => result is Err && result->Err_0@ == e && final(self)@ == old(self)@,
            },
            is_fresh_meta(old(self)@.meta) && passphrase@.len() <= 0xffff_ffff ==> result is Ok,
            forall|version: u32, m: u32, t: u32, p: u32, text: Seq<char>, salt: Seq<u8>|
                {
                    &&& old(self)@.meta == #[trigger] argon2id_phc(version, m, t, p, text)
                    &&& text == #[trigger] b64_text(salt)
                    &&& is_phc_salt(text)
                    &&& params_fault(m, t, p, KEY_LEN as nat) is None
                    &&& salt.len() >= 8
                    &&& passphrase@.len() <= 0xffff_ffff
                } ==> result is Ok && final(self)@.key == Some(
                    argon2id(passphrase@, salt, m, t, p, KEY_LEN as nat),
                ),
            forall|salt: Seq<u8>|
                {
                    &&& old(self)@.meta == #[trigger] fresh_meta(salt)
                    &&& salt.len() == SALT_LEN
                    &&& passphrase@.len() <= 0xffff_ffff
                } ==> final(self)@.key == Some(
                    argon2id(passphrase@, salt, 19456, 2, 1, KEY_LEN as nat),
                ),
    {
        let settings = metadata_settings(self.meta.as_str())?;
        let salt = decode_salt(settings.salt.as_str());
        proof {
            if salt is Ok {
                law_b64_roundtrip(salt->Ok_0@);
            }
            assert forall|raw: Seq<u8>| self.meta@ == #[trigger] fresh_meta(raw) && raw.len()
                == SALT_LEN implies salt is Ok && salt->Ok_0@ == raw by {
                law_b64_form(raw);
                law_b64_roundtrip(raw);
            }
            assert forall|version: u32, m: u32, t: u32, p: u32, text: Seq<char>, raw: Seq<u8>|
                {
                    &&& self.meta@ == #[trigger] argon2id_phc(version, m, t, p, text)
                    &&& text == #[trigger] b64_text(raw)
                    &&& is_phc_salt(text)
                    &&& params_fault(m, t, p, KEY_LEN as nat) is None
                    &&& raw.len() >= 8
                } implies salt is Ok && salt->Ok_0@ == raw && raw.len() <= 48 by {
                law_b64_form(raw);
                law_b64_roundtrip(raw);
            }
        }
        match key_from(passphrase, salt, &settings) {
            Ok(key) => {
                self.key = Some(key);
                Ok(())
            },
            Err(e) => Err(e),
        }
    }

    /// Discards the key.
    pub fn lock(&mut self)
        ensures
            final(self)@ == (OpenerState { key: None, ..old(self)@ }),
        opens_invariants none
        no_unwind
    {
        self.key = None;
    }

    /// Encrypts a secret in place and returns its stored form. What was sealed
    /// unseals to the secret. With a key of the cipher's it fails only where the
    /// cipher fails to seal this very secret.
    pub fn seal(&self, secret: &mut SecretBytes) -> (sealed: Result<Vec<u8>, CanError>)
        ensures
            final(secret)@.len() == old(secret)@.len(),
            match sealed {
                Ok(bytes) => {
                    &&& unsealed(self@.key, bytes@) == Ok::<Seq<u8>, Failure<Seq<char>>>(
                        old(secret)@,
                    )
                    &&& bytes@.len() == NONCE_LEN + old(secret)@.len() + TAG_LEN
                    &&& final(secret)@ == bytes@.subrange(
                        NONCE_LEN as int,
                        bytes@.len() - TAG_LEN,
                    )
                    &&& self@.key is Some
                    &&& siv_opened(
                        self@.key->0,
                        bytes@.take(NONCE_LEN as int),
                        bytes@.skip(NONCE_LEN as int),
                    ) == Some(old(secret)@)
                },
                Err(e) => e@ == seal_failure(self@.key),
            },
            match self@.key {
                None => sealed is Err && sealed->Err_0@ == Failure::<Seq<char>>::LockedForWrite,
                Some(key) => if key.len() != KEY_LEN {
                    sealed is Err && sealed->Err_0@ == Failure::<Seq<char>>::EncryptionKey
                } else {
                    sealed is Err ==> sealed->Err_0@ == Failure::<Seq<char>>::EncryptionFailed
                        && seal_refused(key, old(secret)@)
                },
            },
            seal_failure(self@.key) != Failure::<Seq<char>>::EncryptionFailed ==> sealed is Err
                && final(secret)@ == old(secret)@,
    {
        let key = match &self.key {
            Some(key) => key,
            None => {
                return Err(Failure::LockedForWrite);
            },
        };
        if check_key(key.expose_secret()).is_err() {
            return Err(Failure::EncryptionKey);
        }
        let plaintext = secret.expose_secret_mut();
        match try_seal(key.expose_secret(), plaintext) {
            Some((nonce, tag)) => {
                let bytes = frame(nonce.as_slice(), plaintext, tag.as_slice());
                proof {
                    law_frame_roundtrip(nonce@, plaintext@, tag@);
                }
                assert(bytes@.subrange(NONCE_LEN as int, bytes@.len() - TAG_LEN) =~= plaintext@);
                Ok(bytes)
            },
            None => Err(Failure::EncryptionFailed),
        }
    }

    /// Decrypts the stored form of a secret.
    pub fn unseal(&self, ciphertext: &[u8]) -> (secret: Result<SecretBytes, CanError>)
        ensures
            match secret {
                Ok(s) => {
                    &&& unsealed(self@.key, ciphertext@) == Ok::<Seq<u8>, Failure<Seq<char>>>(s@)
                    &&& s@.len() + NONCE_LEN + TAG_LEN == ciphertext@.len()
                },
                Err(e) => unsealed(self@.key, ciphertext@) == Err::<Seq<u8>, Failure<Seq<char>>>(
                    e@,
                ),
            },
            match self@.key {
                None => secret is Err && secret->Err_0@ == Failure::<Seq<char>>::LockedForRead,
                Some(key) => if ciphertext@.len() < NONCE_LEN + TAG_LEN {
                    secret is Err && secret->Err_0@ == Failure::<Seq<char>>::CiphertextTooShort
                } else if key.len() != KEY_LEN {
                    secret is Err && secret->Err_0@ == Failure::<Seq<char>>::DecryptionKey
                } else {
                    match siv_opened(
                        key,
                        ciphertext@.take(NONCE_LEN as int),
                        ciphertext@.skip(NONCE_LEN as int),
                    ) {
                        Some(plaintext) => secret is Ok && secret->Ok_0@ == plaintext,
                        None => secret is Err && secret->Err_0@
                            == Failure::<Seq<char>>::DecryptionFailed,
                    }
                },
            },
    {
        let key = match &self.key {
            Some(key) => key,
            None => {
                return Err(Failure::LockedForRead);
            },
        };
        let (nonce, sealed) = match unframe(ciphertext) {
            Some(parts) => parts,
            None => {
                return Err(Failure::CiphertextTooShort);
            },
        };
        if check_key(key.expose_secret()).is_err() {
            return Err(Failure::DecryptionKey);
        }
        let mut in_out = slice_to_vec(sealed);
        match open_in_place(key.expose_secret(), nonce, in_out.as_mut_slice()) {
            Ok(plaintext) => Ok(SecretBytes::from(plaintext)),
            Err(_) => Err(Failure::DecryptionFailed),
        }
    }
}

impl Drop for CanOpener {
    fn drop(&mut self)
        ensures
            final(self)@.key is None,
        opens_invariants none
        no_unwind
    {
        self.lock();
    }
}

impl Clone for CanOpener {
    fn clone(&self) -> (copy: CanOpener)
        ensures
            copy@ == self@,
    {
        CanOpener {
            meta: self.meta.clone(),
            key: match &self.key {
                Some(key) => Some(key.clone()),
                None => None,
            },
        }
    }
}

/// The metadata of a new can is one text before its salt.
pub proof fn law_fresh_metadata(salt: Seq<u8>)
    ensures
        fresh_meta(salt) == "$argon2id$v=19$m=19456,t=2,p=1$"@ + b64_text(salt),
{
    reveal_strlit("$argon2id$v=19$m=19456,t=2,p=1$");
    reveal_strlit("$argon2id$v=");
    reveal_strlit("$m=");
    reveal_strlit(",t=");
    reveal_strlit(",p=");
    reveal_strlit("$");
    reveal_with_fuel(decimal_text, 6);
    assert(decimal_text(19) =~= seq!['1', '9']);
    assert(decimal_text(19456) =~= seq!['1', '9', '4', '5', '6']);
    assert(decimal_text(2) =~= seq!['2']);
    assert(decimal_text(1) =~= seq!['1']);
    assert(fresh_meta(salt) =~= "$argon2id$v=19$m=19456,t=2,p=1$"@ + b64_text(salt));
}

/// The key is what Argon2id gives of the passphrase, with the decoded salt and
/// the costs of the metadata. It fails only for the metadata, for a salt that
/// is not in B64, or for a length that Argon2 refuses.
pub proof fn law_keys_are_derived(
    meta: Seq<char>,
    passphrase: Seq<u8>,
    choice: KdfChoice,
    salt: Seq<u8>,
)
    requires
        phc_fields(meta) is Ok,
        kdf_choice(phc_fields(meta)->Ok_0) == Ok::<KdfChoice, Failure<Seq<char>>>(choice),
        choice.salt == b64_text(salt),
    ensures
        8 <= salt.len() <= 0xffff_ffff && passphrase.len() <= 0xffff_ffff ==> derived_key(
            meta,
            passphrase,
        ) == Ok::<Seq<u8>, Failure<Seq<char>>>(
            argon2id(
                passphrase,
                salt,
                choice.m_cost,
                choice.t_cost,
                choice.p_cost,
                KEY_LEN as nat,
            ),
        ),
        passphrase.len() > 0xffff_ffff ==> derived_key(meta, passphrase) == Err::<
            Seq<u8>,
            Failure<Seq<char>>,
        >(Failure::KeyDerivation("password is too long"@)),
        passphrase.len() <= 0xffff_ffff && salt.len() < 8 ==> derived_key(meta, passphrase)
            == Err::<
            Seq<u8>,
            Failure<Seq<char>>,
        >(Failure::KeyDerivation("salt is too short"@)),
{
    law_b64_roundtrip(salt);
}

/// No key is derived where the metadata does not parse or does not give
/// settings, or where its salt is not in B64.
pub proof fn law_key_refusals(meta: Seq<char>, passphrase: Seq<u8>)
    ensures
        match phc_fields(meta) {
            Err(reason) => derived_key(meta, passphrase) == Err::<Seq<u8>, Failure<Seq<char>>>(
                Failure::InvalidMetadata(reason),
            ),
            Ok(fields) => match kdf_choice(fields) {
                Err(e) => derived_key(meta, passphrase) == Err::<Seq<u8>, Failure<Seq<char>>>(e),
                Ok(choice) => (forall|salt: Seq<u8>| choice.salt != #[trigger] b64_text(salt))
                    ==> derived_key(meta, passphrase) == Err::<Seq<u8>, Failure<Seq<char>>>(
                    Failure::InvalidSaltEncoding("invalid Base64 encoding"@),
                ),
            },
        },
{
}

} // verus!
