//! Secret bytes in memory, and where random ones come from.

use crate::error::{CanError, Failure};
use aws_lc_rs::rand::{SecureRandom, SystemRandom};
use secrecy::{ExposeSecret, ExposeSecretMut, SecretBox};
use vstd::prelude::*;
use vstd::slice::slice_to_vec;

verus! {

/// Bytes that are wiped from memory when dropped and that debug output does
/// not show. They are held in a `secrecy::SecretBox<[u8]>`.
#[verifier::external_body]
#[derive(Debug)]
pub struct SecretBytes {
    inner: SecretBox<[u8]>,
}

/// The bytes that a secret holds.
pub uninterp spec fn exposed(secret: SecretBytes) -> Seq<u8>;

impl View for SecretBytes {
    type V = Seq<u8>;

    open spec fn view(&self) -> Seq<u8> {
        exposed(*self)
    }
}

/// `SecretBox::from` takes a vector over: the secret holds its bytes.
#[verifier::external_body]
fn conceal(bytes: Vec<u8>) -> (secret: SecretBytes)
    ensures
        exposed(secret) == bytes@,
{
    SecretBytes { inner: SecretBox::from(bytes) }
}

/// `ExposeSecret::expose_secret` lends the bytes that the secret holds.
#[verifier::external_body]
fn expose(secret: &SecretBytes) -> (bytes: &[u8])
    ensures
        bytes@ == exposed(*secret),
{
    secret.inner.expose_secret()
}

/// `ExposeSecretMut::expose_secret_mut` lends the bytes that the secret holds
/// to be changed: what they are changed to is what it holds afterwards.
#[verifier::external_body]
fn expose_mut(secret: &mut SecretBytes) -> (bytes: &mut [u8])
    ensures
        bytes@ == exposed(*old(secret)),
        exposed(*final(secret)) == final(bytes)@,
{
    secret.inner.expose_secret_mut()
}

impl SecretBytes {
    /// The bytes.
    pub fn expose_secret(&self) -> (bytes: &[u8])
        ensures
            bytes@ == self@,
    {
        expose(self)
    }

    /// The bytes, to be changed in place.
    pub fn expose_secret_mut(&mut self) -> (bytes: &mut [u8])
        ensures
            bytes@ == old(self)@,
            final(self)@ == final(bytes)@,
    {
        expose_mut(self)
    }
}

impl From<Vec<u8>> for SecretBytes {
    fn from(bytes: Vec<u8>) -> (secret: SecretBytes)
        ensures
            secret@ == bytes@,
    {
        conceal(bytes)
    }
}

impl vstd::std_specs::convert::FromSpecImpl<Vec<u8>> for SecretBytes {
    open spec fn obeys_from_spec() -> bool {
        false
    }

    open spec fn from_spec(bytes: Vec<u8>) -> SecretBytes {
        arbitrary()
    }
}

impl Clone for SecretBytes {
    fn clone(&self) -> (copy: SecretBytes)
        ensures
            copy@ == self@,
    {
        conceal(slice_to_vec(expose(self)))
    }
}

/// The error of `aws_lc_rs`, which says nothing but that there was one.
#[verifier::external_type_specification]
#[verifier::external_body]
pub struct ExUnspecified(aws_lc_rs::error::Unspecified);

/// `SecureRandom::fill` of `SystemRandom` overwrites the buffer with random
/// bytes. Only that the length stays can be said of what is in it.
#[verifier::external_body]
pub(crate) fn fill_random(buffer: Vec<u8>) -> (filled: Result<
    Vec<u8>,
    aws_lc_rs::error::Unspecified,
>)
    ensures
        filled is Ok ==> filled->Ok_0@.len() == buffer@.len(),
{
    let mut buffer = buffer;
    SystemRandom::new().fill(&mut buffer)?;
    Ok(buffer)
}

/// Whether `bytes` came of filling a buffer with random bytes.
pub closed spec fn drawn(bytes: Seq<u8>) -> bool {
    exists|buffer: Vec<u8>, filled: Result<Vec<u8>, aws_lc_rs::error::Unspecified>|
        {
            &&& #[trigger] call_ensures(fill_random, (buffer,), filled)
            &&& filled is Ok
            &&& filled->Ok_0@ == bytes
        }
}

/// Whether filling a buffer of `len` bytes with random ones failed.
pub closed spec fn draw_failed(len: nat) -> bool {
    exists|buffer: Vec<u8>, filled: Result<Vec<u8>, aws_lc_rs::error::Unspecified>|
        {
            &&& #[trigger] call_ensures(fill_random, (buffer,), filled)
            &&& filled is Err
            &&& buffer@.len() == len
        }
}

/// Draws `len` random bytes, or none where the system gives none.
pub(crate) fn draw(len: usize) -> (bytes: Option<Vec<u8>>)
    requires
        len <= isize::MAX,
    ensures
        match bytes {
            Some(b) => b@.len() == len && drawn(b@),
            None => draw_failed(len as nat),
        },
{
    match fill_random(vec![0u8; len]) {
        Ok(bytes) => Some(bytes),
        Err(_) => None,
    }
}

/// A secret of `len` random bytes. It fails only where no random bytes can be
/// had.
pub fn make_random(len: usize) -> (secret: Result<SecretBytes, CanError>)
    requires
        len <= isize::MAX,
    ensures
        match secret {
            Ok(s) => s@.len() == len && drawn(s@),
            Err(e) => e@ == Failure::<Seq<char>>::RandomSecret && draw_failed(len as nat),
        },
{
    match draw(len) {
        Some(bytes) => Ok(SecretBytes::from(bytes)),
        None => Err(Failure::RandomSecret),
    }
}

/// What was drawn is an outcome of filling a buffer.
pub(crate) proof fn law_drawn_bytes_filled_a_buffer(bytes: Seq<u8>)
    requires
        drawn(bytes),
    ensures
        exists|buffer: Vec<u8>, filled: Result<Vec<u8>, aws_lc_rs::error::Unspecified>|
            {
                &&& #[trigger] call_ensures(fill_random, (buffer,), filled)
                &&& filled is Ok
                &&& filled->Ok_0@ == bytes
            },
{
}

/// That drawing failed is an outcome of filling a buffer of this length.
pub(crate) proof fn law_failed_draws_filled_no_buffer(len: nat)
    requires
        draw_failed(len),
    ensures
        exists|buffer: Vec<u8>, filled: Result<Vec<u8>, aws_lc_rs::error::Unspecified>|
            {
                &&& #[trigger] call_ensures(fill_random, (buffer,), filled)
                &&& filled is Err
                &&& buffer@.len() == len
            },
{
}

} // verus!
