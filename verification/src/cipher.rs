//! Authenticated encryption with AES-256-GCM-SIV.

use crate::kdf::KEY_LEN;
use aws_lc_rs::aead::{Aad, Nonce, RandomizedNonceKey, AES_256_GCM_SIV};
use vstd::prelude::*;
use vstd::slice::slice_subrange;

verus! {

/// The number of bytes of a nonce.
pub const NONCE_LEN: usize = 12;

/// The number of bytes of an authentication tag.
pub const TAG_LEN: usize = 16;

/// `RandomizedNonceKey::new` sets AES-256-GCM-SIV up with a key, which must
/// have 32 bytes. The small allocation that this takes is taken to succeed,
/// as every allocation is.
#[verifier::external_body]
pub(crate) fn check_key(key: &[u8]) -> (result: Result<(), aws_lc_rs::error::Unspecified>)
    ensures
        result is Ok <==> key@.len() == KEY_LEN,
{
    match RandomizedNonceKey::new(&AES_256_GCM_SIV, key) {
        Ok(_) => Ok(()),
        Err(e) => Err(e),
    }
}

/// The plaintext that `RandomizedNonceKey::open_in_place` finds in a
/// ciphertext with its tag, under a key and a nonce and without associated
/// data; nothing where the tag does not fit.
pub uninterp spec fn siv_opened(key: Seq<u8>, nonce: Seq<u8>, sealed: Seq<u8>) -> Option<Seq<u8>>;

/// `RandomizedNonceKey::seal_in_place_separate_tag` overwrites a plaintext
/// with its ciphertext and returns the nonce, which it draws at random, and
/// the tag. What it sealed opens to the plaintext. That it succeeds cannot be
/// said: it needs random bytes, and the cipher bounds the length.
#[verifier::external_body]
pub(crate) fn seal_in_place(key: &[u8], in_out: &mut [u8]) -> (sealed: Result<
    (Vec<u8>, Vec<u8>),
    aws_lc_rs::error::Unspecified,
>)
    requires
        key@.len() == KEY_LEN,
    ensures
        final(in_out)@.len() == old(in_out)@.len(),
        match sealed {
            Ok((nonce, tag)) => {
                &&& nonce@.len() == NONCE_LEN
                &&& tag@.len() == TAG_LEN
                &&& siv_opened(key@, nonce@, final(in_out)@ + tag@) == Some(old(in_out)@)
            },
            Err(_) => true,
        },
{
    let key = RandomizedNonceKey::new(&AES_256_GCM_SIV, key)?;
    let (nonce, tag) = key.seal_in_place_separate_tag(Aad::empty(), in_out)?;
    Ok((nonce.as_ref().to_vec(), tag.as_ref().to_vec()))
}

/// Whether sealing `plaintext` under `key` was tried and failed.
pub closed spec fn seal_refused(key: Seq<u8>, plaintext: Seq<u8>) -> bool {
    exists|k: &[u8], in_out: &mut [u8], e: aws_lc_rs::error::Unspecified|
        {
            &&& #[trigger] call_ensures(
                seal_in_place,
                (k, in_out),
                Err::<(Vec<u8>, Vec<u8>), aws_lc_rs::error::Unspecified>(e),
            )
            &&& k@ == key
            &&& in_out@ == plaintext
        }
}

/// Seals in place. It fails only where the cipher does.
pub(crate) fn try_seal(key: &[u8], in_out: &mut [u8]) -> (sealed: Option<(Vec<u8>, Vec<u8>)>)
    requires
        key@.len() == KEY_LEN,
    ensures
        final(in_out)@.len() == old(in_out)@.len(),
        match sealed {
            Some((nonce, tag)) => {
                &&& nonce@.len() == NONCE_LEN
                &&& tag@.len() == TAG_LEN
                &&& siv_opened(key@, nonce@, final(in_out)@ + tag@) == Some(old(in_out)@)
            },
            None => seal_refused(key@, old(in_out)@),
        },
{
    match seal_in_place(key, in_out) {
        Ok(parts) => Some(parts),
        Err(_) => None,
    }
}

/// `RandomizedNonceKey::open_in_place` checks the tag at the end of a
/// ciphertext and decrypts. What it finds depends on the key, the nonce and
/// the ciphertext alone, and is shorter than the ciphertext by the tag.
#[verifier::external_body]
pub(crate) fn open_in_place(key: &[u8], nonce: &[u8], in_out: &mut [u8]) -> (opened: Result<
    Vec<u8>,
    aws_lc_rs::error::Unspecified,
>)
    requires
        key@.len() == KEY_LEN,
        nonce@.len() == NONCE_LEN,
    ensures
        final(in_out)@.len() == old(in_out)@.len(),
        match opened {
            Ok(plaintext) => {
                &&& siv_opened(key@, nonce@, old(in_out)@) == Some(plaintext@)
                &&& plaintext@.len() + TAG_LEN == old(in_out)@.len()
            },
            Err(_) => siv_opened(key@, nonce@, old(in_out)@) is None,
        },
{
    let key = RandomizedNonceKey::new(&AES_256_GCM_SIV, key)?;
    let nonce = Nonce::try_assume_unique_for_key(nonce)?;
    let plaintext = key.open_in_place(nonce, Aad::empty(), in_out)?;
    Ok(plaintext.to_vec())
}

/// The stored form of a sealed secret: nonce, ciphertext and tag in a row.
pub fn frame(nonce: &[u8], ciphertext: &[u8], tag: &[u8]) -> (framed: Vec<u8>)
    ensures
        framed@ == nonce@ + ciphertext@ + tag@,
{
    let mut framed: Vec<u8> = Vec::new();
    framed.extend_from_slice(nonce);
    framed.extend_from_slice(ciphertext);
    framed.extend_from_slice(tag);
    assert(framed@ =~= nonce@ + ciphertext@ + tag@);
    framed
}

/// The nonce in the stored form of a sealed secret, and what follows it; none
/// where there is no room for a nonce and a tag.
pub fn unframe(framed: &[u8]) -> (parts: Option<(&[u8], &[u8])>)
    ensures
        match parts {
            Some((nonce, sealed)) => {
                &&& framed@.len() >= NONCE_LEN + TAG_LEN
                &&& nonce@ == framed@.take(NONCE_LEN as int)
                &&& sealed@ == framed@.skip(NONCE_LEN as int)
            },
            None => framed@.len() < NONCE_LEN + TAG_LEN,
        },
{
    if framed.len() < NONCE_LEN + TAG_LEN {
        return None;
    }
    let nonce = slice_subrange(framed, 0, NONCE_LEN);
    let sealed = slice_subrange(framed, NONCE_LEN, framed.len());
    assert(nonce@ =~= framed@.take(NONCE_LEN as int));
    assert(sealed@ =~= framed@.skip(NONCE_LEN as int));
    Some((nonce, sealed))
}

/// What was framed is taken apart into the nonce, and the ciphertext with its
/// tag.
pub proof fn law_frame_roundtrip(nonce: Seq<u8>, ciphertext: Seq<u8>, tag: Seq<u8>)
    requires
        nonce.len() == NONCE_LEN,
        tag.len() == TAG_LEN,
    ensures
        ({
            let framed = nonce + ciphertext + tag;
            &&& framed.len() >= NONCE_LEN + TAG_LEN
            &&& framed.take(NONCE_LEN as int) == nonce
            &&& framed.skip(NONCE_LEN as int) == ciphertext + tag
        }),
{
    let framed = nonce + ciphertext + tag;
    assert(framed.take(NONCE_LEN as int) =~= nonce);
    assert(framed.skip(NONCE_LEN as int) =~= ciphertext + tag);
}

/// That sealing was refused is an outcome of the cipher's own call, on this key
/// and this plaintext.
pub(crate) proof fn law_refusals_are_the_ciphers(key: Seq<u8>, plaintext: Seq<u8>)
    requires
        seal_refused(key, plaintext),
    ensures
        exists|k: &[u8], in_out: &mut [u8], e: aws_lc_rs::error::Unspecified|
            {
                &&& #[trigger] call_ensures(
                    seal_in_place,
                    (k, in_out),
                    Err::<(Vec<u8>, Vec<u8>), aws_lc_rs::error::Unspecified>(e),
                )
                &&& k@ == key
                &&& in_out@ == plaintext
            },
{
}

} // verus!
