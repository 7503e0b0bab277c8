//! What each operation on a can is for, said of paths, of the tree and of the
//! cipher.

use crate::can::{
    create_refusal, deleted, insertion, listed, loaded_state, new_file, opened_state, read_refusal,
    record_at, saved_state, secret_at, stored, update_refusal, with_key, writes_or_cipher_fails,
    written, written_as, CanFile, CanState, FileState, SavedFile, SavedState,
};
use crate::cipher::{seal_refused, siv_opened, NONCE_LEN, TAG_LEN};
use crate::cli::{unlocks_to_write, Step, WriteMode};
use crate::error::Failure;
use crate::hex::{hex_bytes, hex_text, law_hex_roundtrip};
use crate::kdf::KEY_LEN;
use crate::opener::{seal_failure, unsealed, CanOpener};
use crate::pointer::{
    law_every_path_can_be_named, law_path_roundtrip, law_refusal, law_steps, law_tokens,
    lemma_tokens_nonempty, pointer_to, refusal, steps, tokens,
};
use crate::save::{law_replaced_only_when_synced, performed, step_after, step_failure, SaveStep};
use crate::tree::{
    law_paths_lead_on, law_removable, law_removed_then_gone, law_set_above_and_below,
    law_set_then_found, law_set_undoes_remove, leads_to_object, members_of, value_at, with_value,
    without_value,
};
use crate::value::Json;
use vstd::prelude::*;

verus! {

/// Whether the keys can lead to a secret: there is one, and none is empty.
pub open spec fn is_path(keys: Seq<Seq<char>>) -> bool {
    keys.len() > 0 && forall|i: int| 0 <= i < keys.len() ==> (#[trigger] keys[i]).len() > 0
}

proof fn lemma_path_pointer(keys: Seq<Seq<char>>)
    requires
        is_path(keys),
    ensures
        refusal(pointer_to(keys)) is None,
        steps(pointer_to(keys)) == Some(keys),
        tokens(pointer_to(keys)) == Ok::<Seq<Seq<char>>, Failure<Seq<char>>>(keys),
{
    assert(!keys.contains(Seq::empty())) by {
        if keys.contains(Seq::empty()) {
            let i = choose|i: int| 0 <= i < keys.len() && keys[i] == Seq::<char>::empty();
            assert(keys[i].len() > 0);
        }
    }
    law_every_path_can_be_named(keys);
    law_path_roundtrip(keys);
}

/// A secret can be created exactly where nothing is found, whether or not the
/// objects on the way are there.
pub proof fn law_create_where_nothing_is(tree: Json, keys: Seq<Seq<char>>)
    requires
        is_path(keys),
    ensures
        create_refusal(tree, pointer_to(keys)) is None <==> value_at(tree, keys) is None,
        create_refusal(tree, pointer_to(keys)) is Some ==> create_refusal(tree, pointer_to(keys))
            == Some(Failure::SecretExists(pointer_to(keys))),
        create_refusal(Json::Object(Map::empty()), pointer_to(keys)) is None,
{
    lemma_path_pointer(keys);
    assert(value_at(Json::Object(Map::empty()), keys) is None);
}

/// Creating is refused for the pointer, else for what is there, and for nothing
/// else.
pub proof fn law_create_refusals(tree: Json, pointer: Seq<char>)
    ensures
        ({
            let refused = create_refusal(tree, pointer);
            if pointer.len() == 0 || pointer == seq!['/'] {
                refused == Some(Failure::<Seq<char>>::RootPointer)
            } else if pointer[0] != '/' {
                refused == Some(Failure::MissingSlash(pointer))
            } else {
                let keys = steps(pointer)->0;
                if exists|i: int| 0 <= i < keys.len() && (#[trigger] keys[i]).len() == 0 {
                    refused == Some(Failure::EmptyToken(pointer))
                } else if value_at(tree, keys) is Some {
                    refused == Some(Failure::SecretExists(pointer))
                } else {
                    refused is None
                }
            }
        }),
{
    law_refusal(pointer);
    law_steps(pointer);
    law_tokens(pointer);
}

/// A secret can be updated exactly where a string is found.
pub proof fn law_update_where_a_secret_is(tree: Json, keys: Seq<Seq<char>>)
    requires
        is_path(keys),
    ensures
        update_refusal(tree, pointer_to(keys)) is None <==> (value_at(tree, keys) matches Some(
            Json::String(_),
        )),
        value_at(tree, keys) is None ==> update_refusal(tree, pointer_to(keys)) == Some(
            Failure::PointerNotFound(pointer_to(keys)),
        ),
{
    lemma_path_pointer(keys);
}

/// Updating is refused for the pointer, else for what is there, and for nothing
/// else.
pub proof fn law_update_refusals(tree: Json, pointer: Seq<char>)
    ensures
        ({
            let refused = update_refusal(tree, pointer);
            if pointer.len() == 0 || pointer == seq!['/'] {
                refused == Some(Failure::<Seq<char>>::RootPointer)
            } else if pointer[0] != '/' {
                refused == Some(Failure::MissingSlash(pointer))
            } else {
                let keys = steps(pointer)->0;
                if exists|i: int| 0 <= i < keys.len() && (#[trigger] keys[i]).len() == 0 {
                    refused == Some(Failure::EmptyToken(pointer))
                } else {
                    match value_at(tree, keys) {
                        None => refused == Some(Failure::PointerNotFound(pointer)),
                        Some(Json::String(_)) => refused is None,
                        Some(_) => refused == Some(Failure::InvalidSecretRecord(pointer)),
                    }
                }
            }
        }),
{
    law_refusal(pointer);
    law_steps(pointer);
    law_tokens(pointer);
}

/// Reading is refused without the key for the pointer, else for what is there,
/// and for nothing else.
pub proof fn law_read_refusals(tree: Json, pointer: Seq<char>)
    ensures
        ({
            let refused = read_refusal(tree, pointer);
            if pointer.len() == 0 || pointer == seq!['/'] {
                refused == Some(Failure::<Seq<char>>::RootPointer)
            } else if pointer[0] != '/' {
                refused == Some(Failure::MissingSlash(pointer))
            } else {
                match value_at(tree, steps(pointer)->0) {
                    None => refused == Some(Failure::PointerNotFound(pointer)),
                    Some(Json::String(text)) => refused is None && record_at(tree, pointer) == Ok::<
                        Seq<char>,
                        Failure<Seq<char>>,
                    >(text),
                    Some(_) => refused == Some(Failure::InvalidSecretRecord(pointer)),
                }
            }
        }),
{
    law_refusal(pointer);
    law_steps(pointer);
}

/// Unsealing gives what the cipher opens the bytes behind the nonce to, and
/// nothing where there is no key, not one of the cipher's, or no room for a
/// nonce and a tag.
pub proof fn law_unsealing(key: Option<Seq<u8>>, bytes: Seq<u8>)
    ensures
        key is None ==> unsealed(key, bytes) == Err::<Seq<u8>, Failure<Seq<char>>>(
            Failure::LockedForRead,
        ),
        key is Some && bytes.len() < NONCE_LEN + TAG_LEN ==> unsealed(key, bytes) == Err::<
            Seq<u8>,
            Failure<Seq<char>>,
        >(Failure::CiphertextTooShort),
        key is Some && bytes.len() >= NONCE_LEN + TAG_LEN && key->0.len() != KEY_LEN ==> unsealed(
            key,
            bytes,
        ) == Err::<Seq<u8>, Failure<Seq<char>>>(Failure::DecryptionKey),
        key is Some && bytes.len() >= NONCE_LEN + TAG_LEN && key->0.len() == KEY_LEN ==> {
            let opened = siv_opened(
                key->0,
                bytes.take(NONCE_LEN as int),
                bytes.skip(NONCE_LEN as int),
            );
            &&& forall|plaintext: Seq<u8>|
                opened == Some(plaintext) <==> #[trigger] unsealed(key, bytes) == Ok::<
                    Seq<u8>,
                    Failure<Seq<char>>,
                >(plaintext)
            &&& opened is None <==> unsealed(key, bytes) == Err::<Seq<u8>, Failure<Seq<char>>>(
                Failure::DecryptionFailed,
            )
        },
{
}

/// What sealing fails with, by the key.
pub proof fn law_seal_failures(key: Option<Seq<u8>>)
    ensures
        seal_failure(key) == Failure::<Seq<char>>::LockedForWrite <==> key is None,
        seal_failure(key) == Failure::<Seq<char>>::EncryptionKey <==> key is Some && key->0.len()
            != KEY_LEN,
        seal_failure(key) == Failure::<Seq<char>>::EncryptionFailed <==> key is Some
            && key->0.len() == KEY_LEN,
{
}

/// Reading at a path whose end holds the hex notation of sealed bytes gives
/// what the cipher opens them to.
pub proof fn law_reading_opens_what_is_stored(
    file: FileState,
    keys: Seq<Seq<char>>,
    sealed: Seq<u8>,
    key: Seq<u8>,
)
    requires
        is_path(keys),
        value_at(file.secrets, keys) == Some(Json::String(hex_text(sealed))),
        file.key.key == Some(key),
        key.len() == KEY_LEN,
        sealed.len() >= NONCE_LEN + TAG_LEN,
    ensures
        match siv_opened(key, sealed.take(NONCE_LEN as int), sealed.skip(NONCE_LEN as int)) {
            Some(plaintext) => secret_at(file, pointer_to(keys)) == Ok::<
                Seq<u8>,
                Failure<Seq<char>>,
            >(plaintext),
            None => secret_at(file, pointer_to(keys)) == Err::<Seq<u8>, Failure<Seq<char>>>(
                Failure::DecryptionFailed,
            ),
        },
{
    lemma_path_pointer(keys);
    law_hex_roundtrip(sealed);
}

/// Reading at any pointer is refused as far as shows without the key, else for
/// the notation of what is stored, else gives what unsealing gives.
pub proof fn law_reading(file: FileState, pointer: Seq<char>)
    ensures
        read_refusal(file.secrets, pointer) is Some ==> secret_at(file, pointer) == Err::<
            Seq<u8>,
            Failure<Seq<char>>,
        >(read_refusal(file.secrets, pointer)->0),
        read_refusal(file.secrets, pointer) is None ==> {
            let found = value_at(file.secrets, steps(pointer)->0);
            &&& found matches Some(Json::String(_))
            &&& match hex_bytes(vstd::utf8::encode_utf8(found->0->String_0)) {
                Err(e) => secret_at(file, pointer) == Err::<Seq<u8>, Failure<Seq<char>>>(e),
                Ok(bytes) => secret_at(file, pointer) == unsealed(file.key.key, bytes)
                    && match file.key.key {
                    None => secret_at(file, pointer) == Err::<Seq<u8>, Failure<Seq<char>>>(
                        Failure::LockedForRead,
                    ),
                    Some(key) => bytes.len() >= NONCE_LEN + TAG_LEN && key.len() == KEY_LEN ==> {
                        match siv_opened(
                            key,
                            bytes.take(NONCE_LEN as int),
                            bytes.skip(NONCE_LEN as int),
                        ) {
                            Some(plaintext) => secret_at(file, pointer) == Ok::<
                                Seq<u8>,
                                Failure<Seq<char>>,
                            >(plaintext),
                            None => secret_at(file, pointer) == Err::<
                                Seq<u8>,
                                Failure<Seq<char>>,
                            >(Failure::DecryptionFailed),
                        }
                    },
                },
            }
        },
        secret_at(file, pointer) is Ok ==> file.key.key is Some && file.key.key->0.len() == KEY_LEN,
{
    law_refusal(pointer);
    law_steps(pointer);
}

/// Listing gives the very value found at the path, with all that is below it.
pub proof fn law_listing_gives_what_is_found(
    tree: Json,
    keys: Seq<Seq<char>>,
    more: Seq<Seq<char>>,
)
    ensures
        match value_at(tree, keys) {
            Some(found) => {
                &&& listed(tree, pointer_to(keys)) == Ok::<Json, Failure<Seq<char>>>(found)
                &&& value_at(listed(tree, pointer_to(keys))->Ok_0, more) == value_at(
                    tree,
                    keys + more,
                )
            },
            None => listed(tree, pointer_to(keys)) == Err::<Json, Failure<Seq<char>>>(
                Failure::PointerNotFound(pointer_to(keys)),
            ),
        },
{
    law_path_roundtrip(keys);
    law_paths_lead_on(tree, keys, more);
}

/// Listing at any pointer gives what its keys lead to, and fails where they
/// lead nowhere or it has none.
pub proof fn law_listing(tree: Json, pointer: Seq<char>)
    ensures
        pointer.len() > 0 && pointer[0] != '/' ==> listed(tree, pointer) == Err::<
            Json,
            Failure<Seq<char>>,
        >(Failure::PointerNotFound(pointer)),
        pointer.len() == 0 ==> listed(tree, pointer) == Ok::<Json, Failure<Seq<char>>>(tree),
        pointer.len() > 0 && pointer[0] == '/' ==> listed(tree, pointer) == match value_at(
            tree,
            steps(pointer)->0,
        ) {
            Some(found) => Ok::<Json, Failure<Seq<char>>>(found),
            None => Err::<Json, Failure<Seq<char>>>(Failure::PointerNotFound(pointer)),
        },
{
    law_steps(pointer);
    if pointer.len() == 0 {
        assert(value_at(tree, steps(pointer)->0) == Some(tree));
    }
}

/// Whatever is found at the end of a path whose parent is reached by way of
/// objects can be deleted, and nothing else. Setting it there again gives the
/// tree back.
pub proof fn law_delete_what_is_found(tree: Json, keys: Seq<Seq<char>>)
    requires
        is_path(keys),
    ensures
        deleted(tree, pointer_to(keys)) is Ok <==> value_at(tree, keys) is Some && leads_to_object(
            tree,
            keys.drop_last(),
        ),
        deleted(tree, pointer_to(keys)) is Err ==> deleted(tree, pointer_to(keys)) == Err::<
            Json,
            Failure<Seq<char>>,
        >(Failure::PointerNotFound(pointer_to(keys))),
        deleted(tree, pointer_to(keys)) is Ok ==> {
            let rest = deleted(tree, pointer_to(keys))->Ok_0;
            &&& with_value(rest, keys, value_at(tree, keys)->0) == tree
            &&& value_at(rest, keys) is None
            &&& leads_to_object(rest, keys.drop_last())
        },
{
    lemma_path_pointer(keys);
    law_removable(tree, keys);
    if without_value(tree, keys) is Some {
        law_set_undoes_remove(tree, keys);
        law_removed_then_gone(tree, keys);
        lemma_parent_stays(tree, keys);
    }
}

proof fn lemma_parent_stays(tree: Json, keys: Seq<Seq<char>>)
    requires
        without_value(tree, keys) is Some,
    ensures
        leads_to_object(without_value(tree, keys)->0, keys.drop_last()),
    decreases keys.len(),
{
    if keys.len() > 1 {
        assert(keys.drop_last()[0] == keys[0]);
        assert(keys.drop_last().skip(1) =~= keys.skip(1).drop_last());
        lemma_parent_stays(members_of(tree)[keys[0]], keys.skip(1));
    }
}

/// Deleting at any pointer is refused for the pointer, else where nothing can
/// be removed at its path, and for nothing else.
pub proof fn law_delete_refusals(tree: Json, pointer: Seq<char>)
    ensures
        ({
            let outcome = deleted(tree, pointer);
            if pointer.len() == 0 || pointer == seq!['/'] {
                outcome == Err::<Json, Failure<Seq<char>>>(Failure::RootPointer)
            } else if pointer[0] != '/' {
                outcome == Err::<Json, Failure<Seq<char>>>(Failure::MissingSlash(pointer))
            } else {
                let keys = steps(pointer)->0;
                if exists|i: int| 0 <= i < keys.len() && (#[trigger] keys[i]).len() == 0 {
                    outcome == Err::<Json, Failure<Seq<char>>>(Failure::EmptyToken(pointer))
                } else if value_at(tree, keys) is Some && leads_to_object(tree, keys.drop_last()) {
                    &&& outcome is Ok
                    &&& with_value(outcome->Ok_0, keys, value_at(tree, keys)->0) == tree
                    &&& value_at(outcome->Ok_0, keys) is None
                } else {
                    outcome == Err::<Json, Failure<Seq<char>>>(Failure::PointerNotFound(pointer))
                }
            }
        }),
{
    law_refusal(pointer);
    law_steps(pointer);
    law_tokens(pointer);
    if tokens(pointer) is Ok && pointer.len() > 0 {
        let keys = steps(pointer)->0;
        law_removable(tree, keys);
        if without_value(tree, keys) is Some {
            law_set_undoes_remove(tree, keys);
            law_removed_then_gone(tree, keys);
        }
    }
}

/// Storing sealed bytes at a path puts their hex notation at its end, by way of
/// objects, and whatever is below is gone.
pub proof fn law_storing_puts_hex_at_the_end(
    tree: Json,
    keys: Seq<Seq<char>>,
    sealed: Seq<u8>,
    more: Seq<Seq<char>>,
)
    requires
        is_path(keys),
    ensures
        stored(tree, pointer_to(keys), sealed) == Ok::<Json, Failure<Seq<char>>>(
            with_value(tree, keys, Json::String(hex_text(sealed))),
        ),
        ({
            let after = stored(tree, pointer_to(keys), sealed)->Ok_0;
            &&& value_at(after, keys) == Some(Json::String(hex_text(sealed)))
            &&& leads_to_object(after, keys.drop_last())
            &&& more.len() > 0 ==> value_at(after, keys + more) is None
        }),
{
    lemma_path_pointer(keys);
    law_set_then_found(tree, keys, Json::String(hex_text(sealed)));
    law_set_above_and_below(tree, keys, Json::String(hex_text(sealed)), more);
}

/// Storing at any pointer is refused for the pointer, and for nothing else.
pub proof fn law_storing(tree: Json, pointer: Seq<char>, sealed: Seq<u8>)
    ensures
        ({
            let outcome = stored(tree, pointer, sealed);
            if pointer.len() == 0 {
                outcome == Err::<Json, Failure<Seq<char>>>(Failure::NoToken)
            } else if pointer[0] != '/' {
                outcome == Err::<Json, Failure<Seq<char>>>(Failure::MissingSlash(pointer))
            } else {
                let keys = steps(pointer)->0;
                if exists|i: int| 0 <= i < keys.len() && (#[trigger] keys[i]).len() == 0 {
                    outcome == Err::<Json, Failure<Seq<char>>>(Failure::EmptyToken(pointer))
                } else {
                    outcome == Ok::<Json, Failure<Seq<char>>>(
                        with_value(tree, keys, Json::String(hex_text(sealed))),
                    )
                }
            }
        }),
{
    law_steps(pointer);
    law_tokens(pointer);
    if pointer.len() > 0 && tokens(pointer) is Ok {
        lemma_tokens_nonempty(pointer);
    }
}

/// What was written is, at the end of the path, the hex notation of bytes that
/// the cipher opens to the secret under the key of the can. All else that the
/// file holds beside the tree stays.
pub proof fn law_writing(before: FileState, after: FileState, pointer: Seq<char>, secret: Seq<u8>)
    requires
        written(before, after, pointer, secret),
    ensures
        before.key.key is Some,
        before.key.key->0.len() == KEY_LEN,
        after.version == before.version,
        after.key.meta == before.key.meta,
        after.key.key == before.key.key,
        steps(pointer) is Some,
        exists|sealed: Seq<u8>|
            {
                &&& sealed.len() == NONCE_LEN + secret.len() + TAG_LEN
                &&& siv_opened(
                    before.key.key->0,
                    sealed.take(NONCE_LEN as int),
                    sealed.skip(NONCE_LEN as int),
                ) == Some(secret)
                &&& after.secrets == with_value(
                    before.secrets,
                    steps(pointer)->0,
                    Json::String(#[trigger] hex_text(sealed)),
                )
            },
{
    let sealed = choose|sealed: Seq<u8>| written_as(before, after, pointer, secret, sealed);
    assert(siv_opened(
        before.key.key->0,
        sealed.take(NONCE_LEN as int),
        sealed.skip(NONCE_LEN as int),
    ) == Some(secret));
    assert(after.secrets == with_value(
        before.secrets,
        steps(pointer)->0,
        Json::String(hex_text(sealed)),
    ));
}

/// With a key of the cipher's, an insertion fails only where the cipher failed
/// to seal this secret under this key, whatever its length; and it changes
/// nothing then.
pub proof fn law_insertion_fails_only_with_the_cipher(
    before: FileState,
    after: FileState,
    pointer: Seq<char>,
    secret: Seq<u8>,
    outcome: Result<(), Failure<Seq<char>>>,
)
    requires
        insertion(before, after, pointer, secret, outcome),
        before.key.key is Some,
        before.key.key->0.len() == KEY_LEN,
    ensures
        outcome is Err ==> outcome == Err::<(), Failure<Seq<char>>>(Failure::EncryptionFailed)
            && seal_refused(before.key.key->0, secret) && after == before,
        !seal_refused(before.key.key->0, secret) ==> outcome is Ok,
        outcome is Ok ==> written(before, after, pointer, secret),
{
}

/// Without a key of the cipher's an insertion fails and changes nothing.
pub proof fn law_insertion_needs_the_key(
    before: FileState,
    after: FileState,
    pointer: Seq<char>,
    secret: Seq<u8>,
    outcome: Result<(), Failure<Seq<char>>>,
)
    requires
        insertion(before, after, pointer, secret, outcome),
    ensures
        before.key.key is None ==> outcome == Err::<(), Failure<Seq<char>>>(
            Failure::LockedForWrite,
        ) && after == before,
        before.key.key is Some && before.key.key->0.len() != KEY_LEN ==> outcome == Err::<
            (),
            Failure<Seq<char>>,
        >(Failure::EncryptionKey) && after == before,
{
}

/// A write that did what it is for fails only with the key or the cipher, and
/// is otherwise read back.
pub proof fn law_writes_or_cipher_fails(
    before: FileState,
    after: FileState,
    keys: Seq<Seq<char>>,
    secret: Seq<u8>,
    outcome: Result<(), Failure<Seq<char>>>,
)
    requires
        is_path(keys),
        writes_or_cipher_fails(before, after, pointer_to(keys), secret, outcome),
    ensures
        outcome is Err ==> after == before,
        outcome is Err && before.key.key is Some && before.key.key->0.len() == KEY_LEN
            ==> seal_refused(before.key.key->0, secret),
        outcome is Ok ==> secret_at(after, pointer_to(keys)) == Ok::<Seq<u8>, Failure<Seq<char>>>(
            secret,
        ),
{
    lemma_path_pointer(keys);
    if outcome is Ok {
        let key = before.key.key->0;
        let sealed = choose|sealed: Seq<u8>|
            {
                &&& sealed.len() == NONCE_LEN + secret.len() + TAG_LEN
                &&& siv_opened(
                    key,
                    sealed.take(NONCE_LEN as int),
                    sealed.skip(NONCE_LEN as int),
                ) == Some(secret)
                &&& after.secrets == with_value(
                    before.secrets,
                    steps(pointer_to(keys))->0,
                    Json::String(#[trigger] hex_text(sealed)),
                )
            };
        law_set_then_found(before.secrets, keys, Json::String(hex_text(sealed)));
        law_reading_opens_what_is_stored(after, keys, sealed, key);
    }
}

/// A file with another key is the same file but for the key.
pub proof fn law_with_key(file: FileState, key: Option<Seq<u8>>)
    ensures
        with_key(file, key).version == file.version,
        with_key(file, key).key.meta == file.key.meta,
        with_key(file, key).key.key == key,
        with_key(file, key).secrets == file.secrets,
{
}

/// A new file has the schema version, no key and an empty tree.
pub proof fn law_new_file(meta: Seq<char>, keys: Seq<Seq<char>>)
    ensures
        new_file(meta).version == 1,
        new_file(meta).key.meta == meta,
        new_file(meta).key.key is None,
        new_file(meta).secrets is Object,
        keys.len() > 0 ==> value_at(new_file(meta).secrets, keys) is None,
{
}

/// What is saved and what is loaded agree on version, metadata and secrets, and
/// only a file of the schema version is opened.
pub proof fn law_saving_and_loading(file: FileState, saved: SavedState)
    ensures
        saved_state(file).version == file.version,
        saved_state(file).meta == file.key.meta,
        saved_state(file).secrets == file.secrets,
        loaded_state(saved).version == saved.version,
        loaded_state(saved).key.meta == saved.meta,
        loaded_state(saved).key.key is None,
        loaded_state(saved).secrets == saved.secrets,
        saved.version == 1 ==> opened_state(saved) == Ok::<FileState, Failure<Seq<char>>>(
            loaded_state(saved),
        ),
        saved.version != 1 ==> opened_state(saved) == Err::<FileState, Failure<Seq<char>>>(
            Failure::UnsupportedVersion(saved.version),
        ),
{
}

/// Openers and files are what their fields are.
pub proof fn law_files_are_what_they_hold(opener: CanOpener, file: CanFile, saved: SavedFile)
    ensures
        opener@.meta == opener.meta@,
        opener.key is None <==> opener@.key is None,
        opener.key is Some ==> opener@.key == Some(opener.key->0@),
        file@.version == file.version,
        file@.key == file.key@,
        file@.secrets == file.secrets@,
        saved@.version == saved.version,
        saved@.meta == saved.meta@,
        saved@.secrets == saved.secrets@,
{
}

/// A failed step of saving is reported with the file that it was on.
pub proof fn law_step_failures(path: Seq<char>, temp: Seq<char>)
    ensures
        step_failure(SaveStep::Create, path, temp) == Failure::CreateTemp(temp),
        step_failure(SaveStep::Write, path, temp) == Failure::WriteTemp(temp),
        step_failure(SaveStep::Sync, path, temp) == Failure::SyncTemp(temp),
        step_failure(SaveStep::Replace, path, temp) == Failure::Replace(path, temp),
{
}

/// Saving that never fails performs the four steps in order.
pub proof fn law_saving_steps()
    ensures
        step_after(SaveStep::Create) == Some(SaveStep::Write),
        step_after(SaveStep::Write) == Some(SaveStep::Sync),
        step_after(SaveStep::Sync) == Some(SaveStep::Replace),
        step_after(SaveStep::Replace) is None,
        performed(SaveStep::Create, |step: SaveStep| true) == seq![
            SaveStep::Create,
            SaveStep::Write,
            SaveStep::Sync,
            SaveStep::Replace,
        ],
{
    let always = |step: SaveStep| true;
    law_replaced_only_when_synced(always);
    assert(always(SaveStep::Create) && always(SaveStep::Write) && always(SaveStep::Sync));
}

/// Asking for the passphrase to write carries on all that the action says.
pub proof fn law_unlocking_to_write_carries_all(
    step: Step,
    can: CanState,
    mode: WriteMode,
    pointer: Seq<char>,
    length: usize,
    generate: bool,
    confirm: bool,
)
    requires
        unlocks_to_write(step, can, mode, pointer, length, generate, confirm),
    ensures
        step matches Step::UnlockToWrite(writing, confirmed) && writing.can@ == can && writing.mode
            == mode && writing.pointer@ == pointer && writing.length == length && writing.generate
            == generate && confirmed == confirm,
{
}

} // verus!
