//! Key derivation: PHC metadata, salts and Argon2id.

use crate::b64::{b64_text, is_b64, law_b64_form};
use crate::error::{CanError, Failure};
use crate::secret::{draw, draw_failed, drawn};
use crate::text::{
    decimal, decimal_text, law_decimal_is_canonical, law_decimal_roundtrip, parse_usize,
};
use argon2::{Algorithm, Argon2, Params, Version};
use password_hash::{PasswordHash, Salt, SaltString};
use vstd::prelude::*;

verus! {

/// The number of bytes of a derived key.
pub const KEY_LEN: usize = 32;

/// The number of bytes of a salt.
pub const SALT_LEN: usize = 16;

/// The version of Argon2 that keys are derived with.
pub const ARGON2_VERSION: u32 = 19;

/// The fields of a PHC string.
#[derive(Debug)]
pub struct Phc {
    /// The name of the function.
    pub algorithm: String,
    /// The names and values of the parameters, in order.
    pub params: Vec<(String, String)>,
    /// The encoded salt.
    pub salt: Option<String>,
    /// Whether there is a hash output.
    pub has_hash: bool,
}

/// What the fields of a PHC string are.
#[verifier::ext_equal]
pub struct PhcFields {
    pub algorithm: Seq<char>,
    pub params: Seq<(Seq<char>, Seq<char>)>,
    pub salt: Option<Seq<char>>,
    pub has_hash: bool,
}

/// The names and values that pairs of strings hold.
pub open spec fn pair_texts(pairs: Seq<(String, String)>) -> Seq<(Seq<char>, Seq<char>)> {
    pairs.map_values(|pair: (String, String)| (pair.0@, pair.1@))
}

/// The text of an optional string.
pub open spec fn optional_text(text: Option<String>) -> Option<Seq<char>> {
    match text {
        Some(t) => Some(t@),
        None => None,
    }
}

impl View for Phc {
    type V = PhcFields;

    open spec fn view(&self) -> PhcFields {
        PhcFields {
            algorithm: self.algorithm@,
            params: pair_texts(self.params@),
            salt: optional_text(self.salt),
            has_hash: self.has_hash,
        }
    }
}

/// The PHC string of Argon2id with the given version, costs and encoded salt,
/// and without a hash output.
pub open spec fn argon2id_phc(version: u32, m: u32, t: u32, p: u32, salt: Seq<char>) -> Seq<char> {
    "$argon2id$v="@ + decimal_text(version as nat) + "$m="@ + decimal_text(m as nat) + ",t="@
        + decimal_text(t as nat) + ",p="@ + decimal_text(p as nat) + "$"@ + salt
}

/// The fields of [`argon2id_phc`].
pub open spec fn argon2id_fields(m: u32, t: u32, p: u32, salt: Seq<char>) -> PhcFields {
    PhcFields {
        algorithm: "argon2id"@,
        params: seq![
            ("m"@, decimal_text(m as nat)),
            ("t"@, decimal_text(t as nat)),
            ("p"@, decimal_text(p as nat)),
        ],
        salt: Some(salt),
        has_hash: false,
    }
}

/// Whether `salt` can be the salt of a PHC string: 4 to 64 characters of B64,
/// dots and hyphens.
pub open spec fn is_phc_salt(salt: Seq<char>) -> bool {
    &&& 4 <= salt.len() <= 64
    &&& forall|i: int|
        0 <= i < salt.len() ==> is_b64(#[trigger] salt[i]) || salt[i] == '.' || salt[i] == '-'
}

/// The fields that `password_hash::PasswordHash::new` reads from a PHC
/// string, or the text of its error.
pub uninterp spec fn phc_fields(text: Seq<char>) -> Result<PhcFields, Seq<char>>;

/// `password_hash::PasswordHash::new` parses a PHC string. Its fields, or the
/// text of its error, depend on the string alone. It checks the length and the
/// characters of the salt. The fields of an Argon2id string without a hash
/// output are those it is put together from.
#[verifier::external_body]
fn parse_phc(text: &str) -> (phc: Result<Phc, String>)
    ensures
        match phc {
            Ok(fields) => phc_fields(text@) == Ok::<PhcFields, Seq<char>>(fields@),
            Err(e) => phc_fields(text@) == Err::<PhcFields, Seq<char>>(e@),
        },
        phc is Ok && phc->Ok_0@.salt is Some ==> is_phc_salt(phc->Ok_0@.salt->0),
        forall|version: u32, m: u32, t: u32, p: u32, salt: Seq<char>|
            text@ == #[trigger] argon2id_phc(version, m, t, p, salt) && is_phc_salt(salt)
                ==> phc is Ok && phc->Ok_0@ == argon2id_fields(m, t, p, salt),
{
    let parsed = PasswordHash::new(text).map_err(|e| e.to_string())?;
    Ok(
        Phc {
            algorithm: parsed.algorithm.as_str().to_string(),
            params: parsed.params.iter().map(
                |(name, value)| (name.as_str().to_string(), value.as_str().to_string()),
            ).collect(),
            salt: parsed.salt.map(|salt| salt.as_str().to_string()),
            has_hash: parsed.hash.is_some(),
        },
    )
}

/// `password_hash::SaltString::encode_b64` encodes up to 48 bytes in B64 and
/// refuses more.
#[verifier::external_body]
fn encode_salt(bytes: &Vec<u8>) -> (salt: Result<String, String>)
    ensures
        match salt {
            Ok(text) => bytes@.len() <= 48 && text@ == b64_text(bytes@),
            Err(e) => bytes@.len() > 48 && e@ == "invalid Base64 length"@,
        },
{
    match SaltString::encode_b64(bytes) {
        Ok(salt) => Ok(salt.as_str().to_string()),
        Err(e) => Err(e.to_string()),
    }
}

/// `password_hash::Salt::decode_b64` decodes the salt of a PHC string: to the
/// bytes whose B64 encoding it is, and not at all where it is none.
#[verifier::external_body]
pub(crate) fn decode_salt(salt: &str) -> (bytes: Result<Vec<u8>, String>)
    requires
        is_phc_salt(salt@),
    ensures
        match bytes {
            Ok(b) => salt@ == b64_text(b@),
            Err(e) => {
                &&& e@ == "invalid Base64 encoding"@
                &&& forall|raw: Seq<u8>| salt@ != #[trigger] b64_text(raw)
            },
        },
{
    let mut buffer = [0u8; 64];
    let salt = Salt::from_b64(salt).map_err(|e| e.to_string())?;
    let bytes = salt.decode_b64(&mut buffer).map_err(|e| e.to_string())?;
    Ok(bytes.to_vec())
}

/// The default memory, time and parallelism cost of `argon2::Params`.
#[verifier::external_body]
pub(crate) fn default_costs() -> (costs: (u32, u32, u32))
    ensures
        costs == (19456u32, 2u32, 1u32),
{
    (Params::DEFAULT_M_COST, Params::DEFAULT_T_COST, Params::DEFAULT_P_COST)
}

/// Why Argon2 refuses costs and an output length, if it does.
pub open spec fn params_fault(m: u32, t: u32, p: u32, len: nat) -> Option<Seq<char>> {
    if m < 8 || m < 8 * p {
        Some("memory cost is too small"@)
    } else if t < 1 {
        Some("time cost is too small"@)
    } else if p < 1 {
        Some("not enough threads"@)
    } else if p > 0xff_ffff {
        Some("too many threads"@)
    } else if len < 4 {
        Some("output is too short"@)
    } else if len > 0xffff_ffff {
        Some("output is too long"@)
    } else {
        None
    }
}

/// `argon2::Params::new` checks costs and an output length against the limits
/// of Argon2. Eight times the parallelism must fit the cost's type.
#[verifier::external_body]
fn check_params(m: u32, t: u32, p: u32, len: usize) -> (result: Result<(), String>)
    requires
        8 * p <= u32::MAX,
    ensures
        match params_fault(m, t, p, len as nat) {
            None => result is Ok,
            Some(fault) => result is Err && result->Err_0@ == fault,
        },
{
    match Params::new(m, t, p, Some(len)) {
        Ok(_) => Ok(()),
        Err(e) => Err(e.to_string()),
    }
}

/// Why Argon2 refuses a password and a salt by their lengths, if it does.
pub open spec fn inputs_fault(password_len: nat, salt_len: nat) -> Option<Seq<char>> {
    if password_len > 0xffff_ffff {
        Some("password is too long"@)
    } else if salt_len < 8 {
        Some("salt is too short"@)
    } else if salt_len > 0xffff_ffff {
        Some("salt is too long"@)
    } else {
        None
    }
}

/// The output of Argon2id, version 0x13, of the given length.
pub uninterp spec fn argon2id(
    password: Seq<u8>,
    salt: Seq<u8>,
    m: u32,
    t: u32,
    p: u32,
    len: nat,
) -> Seq<u8>;

/// `argon2::Argon2::hash_password_into` fills `out` with the output of
/// Argon2id, unless the password or the salt has a length that it refuses. The
/// `m` kibibytes of memory that this takes are taken to be had, as with every
/// allocation.
#[verifier::external_body]
pub(crate) fn hash_password_into(
    password: &[u8],
    salt: &Vec<u8>,
    m: u32,
    t: u32,
    p: u32,
    out: &mut [u8],
) -> (result: Result<(), String>)
    requires
        params_fault(m, t, p, old(out)@.len()) is None,
    ensures
        final(out)@.len() == old(out)@.len(),
        match inputs_fault(password@.len(), salt@.len()) {
            None => result is Ok && final(out)@ == argon2id(
                password@,
                salt@,
                m,
                t,
                p,
                old(out)@.len(),
            ),
            Some(fault) => result is Err && result->Err_0@ == fault,
        },
{
    let params = Params::new(m, t, p, Some(out.len())).map_err(|e| e.to_string())?;
    let argon2 = Argon2::new(Algorithm::Argon2id, Version::V0x13, params);
    argon2.hash_password_into(password, salt, out).map_err(|e| e.to_string())
}

/// The salt made of the given bytes, of which there may be 48.
pub fn salt_of(bytes: &Vec<u8>) -> (salt: Result<String, CanError>)
    ensures
        match salt {
            Ok(text) => bytes@.len() <= 48 && text@ == b64_text(bytes@),
            Err(e) => bytes@.len() > 48 && e@ == Failure::SaltEncoding("invalid Base64 length"@),
        },
{
    match encode_salt(bytes) {
        Ok(text) => Ok(text),
        Err(e) => Err(Failure::SaltEncoding(e)),
    }
}

/// A fresh random salt: 22 characters that encode 16 bytes. It fails only where
/// no random bytes can be had.
pub fn make_salt() -> (salt: Result<String, CanError>)
    ensures
        match salt {
            Ok(text) => {
                &&& text@.len() == 22
                &&& is_phc_salt(text@)
                &&& exists|bytes: Seq<u8>|
                    bytes.len() == SALT_LEN && drawn(bytes) && text@ == #[trigger] b64_text(bytes)
            },
            Err(e) => e@ == Failure::<Seq<char>>::RandomSalt && draw_failed(SALT_LEN as nat),
        },
{
    let bytes = match draw(SALT_LEN) {
        Some(bytes) => bytes,
        None => {
            return Err(Failure::RandomSalt);
        },
    };
    proof {
        law_b64_form(bytes@);
    }
    salt_of(&bytes)
}

/// The value of the first parameter named `name`, where it is a decimal number
/// of 32 bits.
pub open spec fn decimal_param(params: Seq<(Seq<char>, Seq<char>)>, name: Seq<char>) -> Option<u32>
    decreases params.len(),
{
    if params.len() == 0 {
        None
    } else if params[0].0 == name {
        match decimal(params[0].1) {
            Some(n) if n <= u32::MAX => Some(n as u32),
            _ => None,
        }
    } else {
        decimal_param(params.skip(1), name)
    }
}

fn get_decimal(params: &Vec<(String, String)>, name: &str) -> (value: Option<u32>)
    ensures
        value == decimal_param(pair_texts(params@), name@),
{
    let wanted = name.to_owned();
    let ghost pairs = pair_texts(params@);
    assert(pairs.skip(0) =~= pairs);
    for i in 0..params.len()
        invariant
            wanted@ == name@,
            pairs == pair_texts(params@),
            decimal_param(pairs, name@) == decimal_param(pairs.skip(i as int), name@),
    {
        let ghost rest = pairs.skip(i as int);
        assert(rest[0] == (params@[i as int].0@, params@[i as int].1@));
        assert(rest.skip(1) =~= pairs.skip(i + 1));
        if params[i].0 == wanted {
            return match parse_usize(params[i].1.as_str()) {
                Some(n) => if n <= 0xffff_ffff {
                    Some(n as u32)
                } else {
                    None
                },
                None => None,
            };
        }
    }
    None
}

/// What a key is derived with, next to the passphrase.
#[derive(Debug)]
pub struct KdfSettings {
    /// The encoded salt.
    pub salt: String,
    /// The memory cost in kibibytes.
    pub m_cost: u32,
    /// The number of passes.
    pub t_cost: u32,
    /// The degree of parallelism.
    pub p_cost: u32,
}

/// What the settings are.
#[verifier::ext_equal]
pub struct KdfChoice {
    pub salt: Seq<char>,
    pub m_cost: u32,
    pub t_cost: u32,
    pub p_cost: u32,
}

impl View for KdfSettings {
    type V = KdfChoice;

    open spec fn view(&self) -> KdfChoice {
        KdfChoice {
            salt: self.salt@,
            m_cost: self.m_cost,
            t_cost: self.t_cost,
            p_cost: self.p_cost,
        }
    }
}

/// The settings that the fields of a PHC string ask for: it must name
/// Argon2id, omit the hash output, and give a salt and costs that Argon2
/// accepts.
pub open spec fn kdf_choice(fields: PhcFields) -> Result<KdfChoice, Failure<Seq<char>>> {
    let m = decimal_param(fields.params, "m"@);
    let t = decimal_param(fields.params, "t"@);
    let p = decimal_param(fields.params, "p"@);
    if fields.algorithm != "argon2id"@ {
        Err(Failure::UnsupportedKdf(fields.algorithm))
    } else if fields.has_hash {
        Err(Failure::HashPresent)
    } else if fields.salt is None {
        Err(Failure::MissingSalt)
    } else if m is None {
        Err(Failure::MissingParam("m"@))
    } else if t is None {
        Err(Failure::MissingParam("t"@))
    } else if p is None {
        Err(Failure::MissingParam("p"@))
    } else {
        match params_fault(m->0, t->0, p->0, KEY_LEN as nat) {
            Some(fault) => Err(Failure::InvalidArgon2Params(fault)),
            None => Ok(
                KdfChoice { salt: fields.salt->0, m_cost: m->0, t_cost: t->0, p_cost: p->0 },
            ),
        }
    }
}

/// The settings that the fields of a PHC string ask for.
pub fn kdf_settings(phc: &Phc) -> (settings: Result<KdfSettings, CanError>)
    ensures
        match settings {
            Ok(s) => kdf_choice(phc@) == Ok::<KdfChoice, Failure<Seq<char>>>(s@),
            Err(e) => kdf_choice(phc@) == Err::<KdfChoice, Failure<Seq<char>>>(e@),
        },
{
    if phc.algorithm != "argon2id".to_owned() {
        return Err(Failure::UnsupportedKdf(phc.algorithm.clone()));
    }
    if phc.has_hash {
        return Err(Failure::HashPresent);
    }
    let salt = match &phc.salt {
        Some(salt) => salt.clone(),
        None => {
            return Err(Failure::MissingSalt);
        },
    };
    let m_cost: u32 = match get_decimal(&phc.params, "m") {
        Some(m) => m,
        None => {
            return Err(Failure::MissingParam("m".to_owned()));
        },
    };
    let t_cost: u32 = match get_decimal(&phc.params, "t") {
        Some(t) => t,
        None => {
            return Err(Failure::MissingParam("t".to_owned()));
        },
    };
    let p_cost: u32 = match get_decimal(&phc.params, "p") {
        Some(p) => p,
        None => {
            return Err(Failure::MissingParam("p".to_owned()));
        },
    };
    if p_cost > u32::MAX / 8 {
        return Err(Failure::InvalidArgon2Params("memory cost is too small".to_owned()));
    }
    match check_params(m_cost, t_cost, p_cost, KEY_LEN) {
        Ok(()) => Ok(KdfSettings { salt, m_cost, t_cost, p_cost }),
        Err(e) => Err(Failure::InvalidArgon2Params(e)),
    }
}

/// The settings that key metadata asks for. The metadata of an Argon2id key
/// with costs that Argon2 accepts is read back as it was put together.
pub(crate) fn metadata_settings(meta: &str) -> (settings: Result<KdfSettings, CanError>)
    ensures
        match settings {
            Ok(s) => {
                &&& phc_fields(meta@) is Ok
                &&& kdf_choice(phc_fields(meta@)->Ok_0) == Ok::<KdfChoice, Failure<Seq<char>>>(s@)
                &&& is_phc_salt(s@.salt)
            },
            Err(e) => match phc_fields(meta@) {
                Ok(fields) => kdf_choice(fields) == Err::<KdfChoice, Failure<Seq<char>>>(e@),
                Err(reason) => e@ == Failure::InvalidMetadata(reason),
            },
        },
        forall|version: u32, m: u32, t: u32, p: u32, salt: Seq<char>|
            {
                &&& meta@ == #[trigger] argon2id_phc(version, m, t, p, salt)
                &&& is_phc_salt(salt)
                &&& params_fault(m, t, p, KEY_LEN as nat) is None
            } ==> settings is Ok && settings->Ok_0@ == (KdfChoice {
                salt,
                m_cost: m,
                t_cost: t,
                p_cost: p,
            }),
{
    let phc = match parse_phc(meta) {
        Ok(phc) => phc,
        Err(e) => {
            return Err(Failure::InvalidMetadata(e));
        },
    };
    proof {
        assert forall|version: u32, m: u32, t: u32, p: u32, salt: Seq<char>|
            {
                &&& meta@ == #[trigger] argon2id_phc(version, m, t, p, salt)
                &&& is_phc_salt(salt)
                &&& params_fault(m, t, p, KEY_LEN as nat) is None
            } implies kdf_choice(phc@) == Ok::<KdfChoice, Failure<Seq<char>>>(
            (KdfChoice { salt, m_cost: m, t_cost: t, p_cost: p }),
        ) by {
            lemma_argon2id_choice(m, t, p, salt);
        }
    }
    kdf_settings(&phc)
}

proof fn lemma_argon2id_choice(m: u32, t: u32, p: u32, salt: Seq<char>)
    requires
        params_fault(m, t, p, KEY_LEN as nat) is None,
    ensures
        kdf_choice(argon2id_fields(m, t, p, salt)) == Ok::<KdfChoice, Failure<Seq<char>>>(
            (KdfChoice { salt, m_cost: m, t_cost: t, p_cost: p }),
        ),
{
    reveal_strlit("m");
    reveal_strlit("t");
    reveal_strlit("p");
    assert("m"@[0] != "t"@[0] && "m"@[0] != "p"@[0] && "t"@[0] != "p"@[0]);
    law_decimal_roundtrip(m as nat);
    law_decimal_roundtrip(t as nat);
    law_decimal_roundtrip(p as nat);
    let params = argon2id_fields(m, t, p, salt).params;
    reveal_with_fuel(decimal_param, 3);
    assert(params.skip(1)[0] == params[1]);
    assert(params.skip(1).skip(1)[0] == params[2]);
}

/// A parameter is the first of its name, where that is the decimal notation of
/// a number of 32 bits.
pub proof fn law_first_parameter_counts(
    params: Seq<(Seq<char>, Seq<char>)>,
    name: Seq<char>,
    i: int,
    n: u32,
)
    requires
        0 <= i < params.len(),
        params[i].0 == name,
        forall|j: int| 0 <= j < i ==> (#[trigger] params[j]).0 != name,
    ensures
        decimal_param(params, name) == Some(n) <==> params[i].1 == decimal_text(n as nat),
    decreases params.len(),
{
    if i == 0 {
        law_decimal_roundtrip(n as nat);
        law_decimal_is_canonical(params[0].1);
    } else {
        assert(params[0].0 != name);
        assert(params.skip(1)[i - 1] == params[i]);
        assert forall|j: int| 0 <= j < i - 1 implies (#[trigger] params.skip(1)[j]).0 != name by {
            assert(params.skip(1)[j] == params[j + 1]);
        }
        law_first_parameter_counts(params.skip(1), name, i - 1, n);
    }
}

/// A parameter that is not named is missing.
pub proof fn law_missing_parameter(params: Seq<(Seq<char>, Seq<char>)>, name: Seq<char>)
    requires
        forall|j: int| 0 <= j < params.len() ==> (#[trigger] params[j]).0 != name,
    ensures
        decimal_param(params, name) is None,
    decreases params.len(),
{
    if params.len() > 0 {
        assert(params[0].0 != name);
        assert forall|j: int| 0 <= j < params.skip(1).len() implies (#[trigger] params.skip(
            1,
        )[j]).0 != name by {
            assert(params.skip(1)[j] == params[j + 1]);
        }
        law_missing_parameter(params.skip(1), name);
    }
}

/// The settings are the salt and the costs that the fields name, exactly where
/// these are fields of Argon2id without a hash output and with costs that
/// Argon2 accepts.
pub proof fn law_settings_are_as_named(fields: PhcFields)
    ensures
        ({
            let m = decimal_param(fields.params, "m"@);
            let t = decimal_param(fields.params, "t"@);
            let p = decimal_param(fields.params, "p"@);
            &&& kdf_choice(fields) is Ok <==> {
                &&& fields.algorithm == "argon2id"@
                &&& !fields.has_hash
                &&& fields.salt is Some
                &&& m is Some
                &&& t is Some
                &&& p is Some
                &&& m->0 >= 8
                &&& m->0 >= 8 * p->0
                &&& t->0 >= 1
                &&& 1 <= p->0 <= 0xff_ffff
            }
            &&& kdf_choice(fields) is Ok ==> {
                &&& kdf_choice(fields)->Ok_0.salt == fields.salt->0
                &&& kdf_choice(fields)->Ok_0.m_cost == m->0
                &&& kdf_choice(fields)->Ok_0.t_cost == t->0
                &&& kdf_choice(fields)->Ok_0.p_cost == p->0
            }
        }),
{
}

/// Fields are refused for the first of these that holds: another function, a
/// hash output, no salt, a missing cost, costs that Argon2 refuses.
pub proof fn law_settings_refusals(fields: PhcFields)
    ensures
        ({
            let m = decimal_param(fields.params, "m"@);
            let t = decimal_param(fields.params, "t"@);
            let p = decimal_param(fields.params, "p"@);
            let refused = kdf_choice(fields);
            if fields.algorithm != "argon2id"@ {
                refused == Err::<KdfChoice, Failure<Seq<char>>>(
                    Failure::UnsupportedKdf(fields.algorithm),
                )
            } else if fields.has_hash {
                refused == Err::<KdfChoice, Failure<Seq<char>>>(Failure::HashPresent)
            } else if fields.salt is None {
                refused == Err::<KdfChoice, Failure<Seq<char>>>(Failure::MissingSalt)
            } else if m is None {
                refused == Err::<KdfChoice, Failure<Seq<char>>>(Failure::MissingParam("m"@))
            } else if t is None {
                refused == Err::<KdfChoice, Failure<Seq<char>>>(Failure::MissingParam("t"@))
            } else if p is None {
                refused == Err::<KdfChoice, Failure<Seq<char>>>(Failure::MissingParam("p"@))
            } else {
                match params_fault(m->0, t->0, p->0, KEY_LEN as nat) {
                    Some(fault) => refused == Err::<KdfChoice, Failure<Seq<char>>>(
                        Failure::InvalidArgon2Params(fault),
                    ),
                    None => refused is Ok,
                }
            }
        }),
{
}

/// PHC fields and settings are what their fields are.
pub proof fn law_settings_are_what_they_hold(phc: Phc, settings: KdfSettings)
    ensures
        phc@.algorithm == phc.algorithm@,
        phc@.has_hash == phc.has_hash,
        phc.salt is None <==> phc@.salt is None,
        phc.salt is Some ==> phc@.salt == Some(phc.salt->0@),
        phc@.params.len() == phc.params@.len(),
        forall|i: int|
            0 <= i < phc.params@.len() ==> #[trigger] phc@.params[i] == (
                phc.params@[i].0@,
                phc.params@[i].1@,
            ),
        settings@.salt == settings.salt@,
        settings@.m_cost == settings.m_cost,
        settings@.t_cost == settings.t_cost,
        settings@.p_cost == settings.p_cost,
{
}

/// Argon2 accepts costs and a length exactly within its limits, and names the
/// first that is not.
pub proof fn law_cost_limits(m: u32, t: u32, p: u32, len: nat)
    ensures
        params_fault(m, t, p, len) is None <==> m >= 8 && m >= 8 * p && t >= 1 && 1 <= p
            <= 0xff_ffff && 4 <= len <= 0xffff_ffff,
        m < 8 || m < 8 * p ==> params_fault(m, t, p, len) == Some("memory cost is too small"@),
        m >= 8 && m >= 8 * p && t == 0 ==> params_fault(m, t, p, len) == Some(
            "time cost is too small"@,
        ),
        m >= 8 && t > 0 && p == 0 ==> params_fault(m, t, p, len) == Some("not enough threads"@),
        m >= 8 * p && t > 0 && p > 0xff_ffff ==> params_fault(m, t, p, len) == Some(
            "too many threads"@,
        ),
{
}

/// Argon2 accepts a password and a salt exactly within its limits, and names
/// the first that is not.
pub proof fn law_input_limits(password_len: nat, salt_len: nat)
    ensures
        inputs_fault(password_len, salt_len) is None <==> password_len <= 0xffff_ffff && 8
            <= salt_len <= 0xffff_ffff,
        password_len > 0xffff_ffff ==> inputs_fault(password_len, salt_len) == Some(
            "password is too long"@,
        ),
        password_len <= 0xffff_ffff && salt_len < 8 ==> inputs_fault(password_len, salt_len)
            == Some("salt is too short"@),
        password_len <= 0xffff_ffff && salt_len > 0xffff_ffff ==> inputs_fault(
            password_len,
            salt_len,
        ) == Some("salt is too long"@),
{
}

} // verus!
