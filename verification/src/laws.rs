//! What holds of a can across operations.

use crate::can::{
    create_refusal, deleted, insertion, law_written_is_read, listed, loaded_state, opened_state,
    read_refusal, saved_state, secret_at, stored, update_refusal, with_key, written, written_as,
    FileState,
};
use crate::cipher::{siv_opened, NONCE_LEN};
use crate::error::{Failure, SCHEMA_VERSION};
use crate::hex::{hex_text, law_hex_roundtrip};
use crate::kdf::KEY_LEN;
use crate::opener::{derived_key, unsealed};
use crate::pointer::{lemma_tokens_nonempty, refusal, steps, tokens};
use crate::tree::{
    apart, holds, law_held_is_found, law_remove_keeps_held, law_set_keeps_held, law_set_then_held,
    law_last_set_counts, law_remove_keeps_others, law_remove_undoes_set, law_removed_then_gone,
    law_removable, law_set_keeps_others, law_set_then_found, law_set_then_removable,
    leads_to_object, part_at, value_at, value_at_pointer,
};
use crate::value::Json;
use vstd::prelude::*;

verus! {

/// A secret that was written is read back when the can was locked in between
/// and is unlocked with the same passphrase.
pub proof fn law_secret_survives_locking(
    before: FileState,
    after: FileState,
    pointer: Seq<char>,
    secret: Seq<u8>,
    passphrase: Seq<u8>,
)
    requires
        derived_key(before.key.meta, passphrase) is Ok,
        before.key.key == Some(derived_key(before.key.meta, passphrase)->Ok_0),
        refusal(pointer) is None,
        written(before, after, pointer, secret),
    ensures
        ({
            let locked = with_key(after, None);
            let key = derived_key(locked.key.meta, passphrase);
            &&& key is Ok
            &&& secret_at(with_key(locked, Some(key->Ok_0)), pointer) == Ok::<
                Seq<u8>,
                Failure<Seq<char>>,
            >(secret)
        }),
{
    law_written_is_read(before, after, pointer, secret);
    assert(with_key(with_key(after, None), before.key.key) =~= after);
}

/// Unlocking with the same passphrase undoes locking.
pub proof fn law_unlock_undoes_lock(file: FileState, passphrase: Seq<u8>)
    requires
        derived_key(file.key.meta, passphrase) is Ok,
        file.key.key == Some(derived_key(file.key.meta, passphrase)->Ok_0),
    ensures
        ({
            let locked = with_key(file, None);
            with_key(locked, Some(derived_key(locked.key.meta, passphrase)->Ok_0)) == file
        }),
{
}

/// Whether `after` comes from `before` by one operation that leaves the path of
/// `pointer` alone: reading, listing, validating or failing, locking, unlocking
/// with any passphrase, or writing or deleting apart from it.
pub open spec fn passes_by(before: FileState, after: FileState, pointer: Seq<char>) -> bool {
    ||| after == before
    ||| after == with_key(before, None)
    ||| exists|passphrase: Seq<u8>|
        {
            &&& #[trigger] derived_key(before.key.meta, passphrase) is Ok
            &&& after == with_key(before, Some(derived_key(before.key.meta, passphrase)->Ok_0))
        }
    ||| exists|other: Seq<char>, secret: Seq<u8>|
        {
            &&& #[trigger] written(before, after, other, secret)
            &&& apart(tokens(other)->Ok_0, tokens(pointer)->Ok_0)
        }
    ||| exists|other: Seq<char>|
        {
            &&& #[trigger] deleted(before.secrets, other) is Ok
            &&& after == (FileState { secrets: deleted(before.secrets, other)->Ok_0, ..before })
            &&& apart(tokens(other)->Ok_0, tokens(pointer)->Ok_0)
        }
}

/// Whether each state of a can comes from the one before by an operation that
/// leaves the path of `pointer` alone.
pub open spec fn all_pass_by(states: Seq<FileState>, pointer: Seq<char>) -> bool {
    forall|i: int|
        0 <= i < states.len() - 1 ==> #[trigger] passes_by(states[i], states[i + 1], pointer)
}

proof fn lemma_record_stays(states: Seq<FileState>, pointer: Seq<char>, record: Json)
    requires
        states.len() > 0,
        all_pass_by(states, pointer),
        tokens(pointer) is Ok,
        holds(states[0].secrets, tokens(pointer)->Ok_0, record),
    ensures
        states.last().key.meta == states[0].key.meta,
        holds(states.last().secrets, tokens(pointer)->Ok_0, record),
    decreases states.len(),
{
    if states.len() > 1 {
        let front = states.drop_last();
        let before = front.last();
        let after = states.last();
        let keys = tokens(pointer)->Ok_0;
        assert forall|i: int| 0 <= i < front.len() - 1 implies #[trigger] passes_by(
            front[i],
            front[i + 1],
            pointer,
        ) by {
            assert(passes_by(states[i], states[i + 1], pointer));
        }
        lemma_record_stays(front, pointer, record);
        assert(passes_by(states[states.len() - 2], states[states.len() - 2 + 1], pointer));
        if exists|other: Seq<char>, secret: Seq<u8>|
            {
                &&& #[trigger] written(before, after, other, secret)
                &&& apart(tokens(other)->Ok_0, keys)
            } {
            let (other, secret) = choose|other: Seq<char>, secret: Seq<u8>|
                {
                    &&& #[trigger] written(before, after, other, secret)
                    &&& apart(tokens(other)->Ok_0, keys)
                };
            let sealed = choose|sealed: Seq<u8>| written_as(before, after, other, secret, sealed);
            law_set_keeps_held(
                before.secrets,
                tokens(other)->Ok_0,
                Json::String(hex_text(sealed)),
                keys,
                record,
            );
        } else if exists|other: Seq<char>|
            {
                &&& #[trigger] deleted(before.secrets, other) is Ok
                &&& after == (FileState { secrets: deleted(before.secrets, other)->Ok_0, ..before })
                &&& apart(tokens(other)->Ok_0, keys)
            } {
            let other = choose|other: Seq<char>|
                {
                    &&& #[trigger] deleted(before.secrets, other) is Ok
                    &&& after == (FileState {
                        secrets: deleted(before.secrets, other)->Ok_0,
                        ..before
                    })
                    &&& apart(tokens(other)->Ok_0, keys)
                };
            law_remove_keeps_held(before.secrets, tokens(other)->Ok_0, keys, record);
        }
    }
}

/// A value that is reached by way of objects stays through any number of
/// operations that leave its path alone. Reading it gives what it gave, as
/// long as the key is the same. What is reached by way of an array may be lost
/// to a write that passes through the array.
pub proof fn law_secret_stays(states: Seq<FileState>, pointer: Seq<char>, record: Json)
    requires
        states.len() > 0,
        all_pass_by(states, pointer),
        tokens(pointer) is Ok,
        holds(states[0].secrets, tokens(pointer)->Ok_0, record),
    ensures
        listed(states.last().secrets, pointer) == listed(states[0].secrets, pointer),
        forall|key: Option<Seq<u8>>|
            secret_at(#[trigger] with_key(states.last(), key), pointer) == secret_at(
                with_key(states[0], key),
                pointer,
            ),
        states.last().key.key == states[0].key.key ==> secret_at(states.last(), pointer)
            == secret_at(states[0], pointer),
{
    lemma_record_stays(states, pointer, record);
    law_held_is_found(states[0].secrets, tokens(pointer)->Ok_0, record);
    law_held_is_found(states.last().secrets, tokens(pointer)->Ok_0, record);
}

/// A secret that was written is read back after any number of operations that
/// leave its path alone: while the can has the key it was written with, and
/// once it is unlocked again with a passphrase that gives this key. While the
/// can is locked it is not read.
pub proof fn law_written_secret_stays(
    before: FileState,
    states: Seq<FileState>,
    pointer: Seq<char>,
    secret: Seq<u8>,
)
    requires
        refusal(pointer) is None,
        states.len() > 0,
        written(before, states[0], pointer, secret),
        all_pass_by(states, pointer),
    ensures
        states.last().key.key == before.key.key ==> secret_at(states.last(), pointer) == Ok::<
            Seq<u8>,
            Failure<Seq<char>>,
        >(secret),
        states.last().key.key is None ==> secret_at(states.last(), pointer) == Err::<
            Seq<u8>,
            Failure<Seq<char>>,
        >(Failure::LockedForRead),
        forall|passphrase: Seq<u8>|
            {
                let key = #[trigger] derived_key(before.key.meta, passphrase);
                key is Ok && before.key.key == Some(key->Ok_0)
            } ==> {
                let key = derived_key(states.last().key.meta, passphrase);
                &&& key is Ok
                &&& secret_at(with_key(states.last(), Some(key->Ok_0)), pointer) == Ok::<
                    Seq<u8>,
                    Failure<Seq<char>>,
                >(secret)
            },
{
    let sealed = choose|sealed: Seq<u8>| written_as(before, states[0], pointer, secret, sealed);
    let record = Json::String(hex_text(sealed));
    let last = states.last();
    law_set_then_held(before.secrets, tokens(pointer)->Ok_0, record);
    lemma_record_stays(states, pointer, record);
    law_secret_stays(states, pointer, record);
    law_written_is_read(before, states[0], pointer, secret);
    assert(with_key(states[0], before.key.key) =~= states[0]);
    assert(secret_at(with_key(last, before.key.key), pointer) == Ok::<Seq<u8>, Failure<Seq<char>>>(
        secret,
    ));
    assert(with_key(last, last.key.key) =~= last);
    law_locked_can_is_not_read(with_key(last, before.key.key), pointer);
    assert(with_key(with_key(last, before.key.key), None) =~= with_key(last, None));
}

/// Whether `after` comes from `before` by one operation on a can: reading,
/// listing, validating or failing, locking, unlocking, writing, storing or
/// deleting.
pub open spec fn operates(before: FileState, after: FileState) -> bool {
    ||| after == before
    ||| after == with_key(before, None)
    ||| exists|passphrase: Seq<u8>|
        {
            &&& #[trigger] derived_key(before.key.meta, passphrase) is Ok
            &&& after == with_key(before, Some(derived_key(before.key.meta, passphrase)->Ok_0))
        }
    ||| exists|pointer: Seq<char>, secret: Seq<u8>| written(before, after, pointer, secret)
    ||| exists|pointer: Seq<char>, sealed: Seq<u8>|
        {
            &&& #[trigger] stored(before.secrets, pointer, sealed) is Ok
            &&& after == (FileState {
                secrets: stored(before.secrets, pointer, sealed)->Ok_0,
                ..before
            })
        }
    ||| exists|pointer: Seq<char>|
        {
            &&& #[trigger] deleted(before.secrets, pointer) is Ok
            &&& after == (FileState { secrets: deleted(before.secrets, pointer)->Ok_0, ..before })
        }
}

/// Whether each state of a can comes from the one before by an operation.
pub open spec fn all_operate(states: Seq<FileState>) -> bool {
    forall|i: int| 0 <= i < states.len() - 1 ==> #[trigger] operates(states[i], states[i + 1])
}

/// No operation changes the schema version or the metadata of the key.
pub proof fn law_version_and_meta_stay(states: Seq<FileState>)
    requires
        states.len() > 0,
        all_operate(states),
    ensures
        states.last().version == states[0].version,
        states.last().key.meta == states[0].key.meta,
    decreases states.len(),
{
    if states.len() > 1 {
        let front = states.drop_last();
        assert forall|i: int| 0 <= i < front.len() - 1 implies #[trigger] operates(
            front[i],
            front[i + 1],
        ) by {
            assert(operates(states[i], states[i + 1]));
        }
        law_version_and_meta_stay(front);
        assert(operates(states[states.len() - 2], states[states.len() - 2 + 1]));
    }
}

/// What is saved does not depend on the key, nor on whether there is one.
pub proof fn law_key_is_not_saved(file: FileState, key: Option<Seq<u8>>)
    ensures
        saved_state(with_key(file, key)) == saved_state(file),
{
}

/// Loading what was saved gives the file back, locked.
pub proof fn law_load_undoes_save(file: FileState)
    ensures
        loaded_state(saved_state(file)) == with_key(file, None),
{
}

/// A can that was opened can be saved and opened again after any number of
/// operations. It then has the same version, metadata and secrets, and is
/// locked, whether or not it was unlocked when saved.
pub proof fn law_saved_can_opens(states: Seq<FileState>)
    requires
        states.len() > 0,
        states[0].version == SCHEMA_VERSION,
        all_operate(states),
    ensures
        opened_state(saved_state(states.last())) == Ok::<FileState, Failure<Seq<char>>>(
            with_key(states.last(), None),
        ),
        with_key(states.last(), None).version == SCHEMA_VERSION,
        forall|pointer: Seq<char>| #[trigger]
            listed(with_key(states.last(), None).secrets, pointer) == listed(
                states.last().secrets,
                pointer,
            ),
{
    law_version_and_meta_stay(states);
    law_load_undoes_save(states.last());
}

/// A secret that was written, saved after any number of operations that leave
/// its path alone, and opened again, is read with the same passphrase.
pub proof fn law_secret_survives_saving(
    before: FileState,
    states: Seq<FileState>,
    pointer: Seq<char>,
    secret: Seq<u8>,
    passphrase: Seq<u8>,
)
    requires
        before.version == SCHEMA_VERSION,
        derived_key(before.key.meta, passphrase) is Ok,
        before.key.key == Some(derived_key(before.key.meta, passphrase)->Ok_0),
        refusal(pointer) is None,
        states.len() > 0,
        written(before, states[0], pointer, secret),
        all_pass_by(states, pointer),
    ensures
        ({
            let opened = opened_state(saved_state(states.last()));
            let key = derived_key(opened->Ok_0.key.meta, passphrase);
            &&& opened is Ok
            &&& key is Ok
            &&& secret_at(with_key(opened->Ok_0, Some(key->Ok_0)), pointer) == Ok::<
                Seq<u8>,
                Failure<Seq<char>>,
            >(secret)
        }),
{
    let last = states.last();
    law_written_secret_stays(before, states, pointer, secret);
    lemma_passing_by_operates(states, pointer);
    law_version_and_meta_stay(states);
    law_load_undoes_save(last);
    assert(with_key(with_key(last, None), before.key.key) =~= with_key(last, before.key.key));
}

proof fn lemma_passing_by_operates(states: Seq<FileState>, pointer: Seq<char>)
    requires
        all_pass_by(states, pointer),
    ensures
        all_operate(states),
{
    assert forall|i: int| 0 <= i < states.len() - 1 implies #[trigger] operates(
        states[i],
        states[i + 1],
    ) by {
        assert(passes_by(states[i], states[i + 1], pointer));
    }
}

/// A written secret is not read under another key of the cipher's length, after
/// any number of operations that leave its path alone, where the cipher does
/// not open its sealed form under that key.
pub proof fn law_other_key_reads_nothing(
    before: FileState,
    states: Seq<FileState>,
    pointer: Seq<char>,
    secret: Seq<u8>,
    sealed: Seq<u8>,
    key: Seq<u8>,
)
    requires
        refusal(pointer) is None,
        states.len() > 0,
        written_as(before, states[0], pointer, secret, sealed),
        all_pass_by(states, pointer),
        key.len() == KEY_LEN,
        siv_opened(key, sealed.take(NONCE_LEN as int), sealed.skip(NONCE_LEN as int)) is None,
    ensures
        secret_at(with_key(states.last(), Some(key)), pointer) == Err::<
            Seq<u8>,
            Failure<Seq<char>>,
        >(Failure::DecryptionFailed),
{
    let keys = tokens(pointer)->Ok_0;
    let record = Json::String(hex_text(sealed));
    law_set_then_held(before.secrets, keys, record);
    lemma_record_stays(states, pointer, record);
    law_held_is_found(states.last().secrets, keys, record);
    law_hex_roundtrip(sealed);
}

/// A locked can gives no secret: what an unlocked can would give is refused
/// because the can is locked.
pub proof fn law_locked_can_is_not_read(file: FileState, pointer: Seq<char>)
    ensures
        secret_at(with_key(file, None), pointer) is Err,
        secret_at(file, pointer) is Ok ==> secret_at(with_key(file, None), pointer) == Err::<
            Seq<u8>,
            Failure<Seq<char>>,
        >(Failure::LockedForRead),
{
}

/// A locked can takes no secret.
pub proof fn law_locked_can_is_not_written(
    before: FileState,
    after: FileState,
    pointer: Seq<char>,
    secret: Seq<u8>,
    outcome: Result<(), Failure<Seq<char>>>,
)
    requires
        before.key.key is None,
        insertion(before, after, pointer, secret, outcome),
    ensures
        outcome == Err::<(), Failure<Seq<char>>>(Failure::LockedForWrite),
        after == before,
{
}

/// Writing a secret leaves every value whose path parts from its own as it was.
/// The exception is a JSON array on the way to the written place: it gives way,
/// and what was in it is lost.
pub proof fn law_write_keeps_other_secrets(
    before: FileState,
    after: FileState,
    pointer: Seq<char>,
    secret: Seq<u8>,
    other: Seq<char>,
    d: int,
)
    requires
        written(before, after, pointer, secret),
        steps(other) is Some,
        part_at(tokens(pointer)->Ok_0, steps(other)->0, d),
        value_at_pointer(before.secrets, other) is None || forall|i: int|
            0 <= i <= d ==> !(#[trigger] value_at(before.secrets, tokens(pointer)->Ok_0.take(i))
                matches Some(Json::Array(_))),
    ensures
        secret_at(after, other) == secret_at(before, other),
        listed(after.secrets, other) == listed(before.secrets, other),
{
    let sealed = choose|sealed: Seq<u8>| written_as(before, after, pointer, secret, sealed);
    law_set_keeps_others(
        before.secrets,
        tokens(pointer)->Ok_0,
        Json::String(hex_text(sealed)),
        steps(other)->0,
        d,
    );
}

/// Of two secrets written at one place the first leaves no trace.
pub proof fn law_last_write_counts(
    before: FileState,
    between: FileState,
    after: FileState,
    pointer: Seq<char>,
    first: Seq<u8>,
    second: Seq<u8>,
)
    requires
        written(before, between, pointer, first),
        written(between, after, pointer, second),
    ensures
        written(before, after, pointer, second),
{
    let one = choose|sealed: Seq<u8>| written_as(before, between, pointer, first, sealed);
    let two = choose|sealed: Seq<u8>| written_as(between, after, pointer, second, sealed);
    law_last_set_counts(
        before.secrets,
        tokens(pointer)->Ok_0,
        Json::String(hex_text(one)),
        Json::String(hex_text(two)),
    );
    assert(written_as(before, after, pointer, second, two));
}

/// Where a secret was written, none can be created, and one can be read,
/// updated and deleted.
pub proof fn law_written_is_there(
    before: FileState,
    after: FileState,
    pointer: Seq<char>,
    secret: Seq<u8>,
)
    requires
        refusal(pointer) is None,
        written(before, after, pointer, secret),
    ensures
        create_refusal(after.secrets, pointer) == Some(Failure::SecretExists(pointer)),
        read_refusal(after.secrets, pointer) is None,
        update_refusal(after.secrets, pointer) is None,
        deleted(after.secrets, pointer) is Ok,
{
    let sealed = choose|sealed: Seq<u8>| written_as(before, after, pointer, secret, sealed);
    lemma_tokens_nonempty(pointer);
    let keys = tokens(pointer)->Ok_0;
    law_set_then_found(before.secrets, keys, Json::String(hex_text(sealed)));
    law_set_then_removable(before.secrets, keys, Json::String(hex_text(sealed)));
}

/// What was deleted can be neither read nor listed, updated nor deleted again,
/// and there is room to create a secret.
pub proof fn law_deleted_is_gone(file: FileState, pointer: Seq<char>)
    requires
        deleted(file.secrets, pointer) is Ok,
    ensures
        ({
            let after = FileState { secrets: deleted(file.secrets, pointer)->Ok_0, ..file };
            &&& secret_at(after, pointer) == Err::<Seq<u8>, Failure<Seq<char>>>(
                Failure::PointerNotFound(pointer),
            )
            &&& listed(after.secrets, pointer) == Err::<Json, Failure<Seq<char>>>(
                Failure::PointerNotFound(pointer),
            )
            &&& update_refusal(after.secrets, pointer) == Some(Failure::PointerNotFound(pointer))
            &&& deleted(after.secrets, pointer) == Err::<Json, Failure<Seq<char>>>(
                Failure::PointerNotFound(pointer),
            )
            &&& create_refusal(after.secrets, pointer) is None
        }),
{
    let keys = tokens(pointer)->Ok_0;
    lemma_tokens_nonempty(pointer);
    law_removed_then_gone(file.secrets, keys);
    law_removable(deleted(file.secrets, pointer)->Ok_0, keys);
}

/// Deleting leaves every value whose path parts from the deleted one as it was.
pub proof fn law_delete_keeps_other_secrets(
    file: FileState,
    pointer: Seq<char>,
    other: Seq<char>,
    d: int,
)
    requires
        deleted(file.secrets, pointer) is Ok,
        steps(other) is Some,
        part_at(tokens(pointer)->Ok_0, steps(other)->0, d),
    ensures
        ({
            let after = FileState { secrets: deleted(file.secrets, pointer)->Ok_0, ..file };
            &&& secret_at(after, other) == secret_at(file, other)
            &&& listed(after.secrets, other) == listed(file.secrets, other)
        }),
{
    law_remove_keeps_others(file.secrets, tokens(pointer)->Ok_0, steps(other)->0, d);
}

/// Deleting a secret that was created restores the tree, where the object that
/// holds it was there before.
pub proof fn law_delete_undoes_create(
    before: FileState,
    after: FileState,
    pointer: Seq<char>,
    secret: Seq<u8>,
)
    requires
        create_refusal(before.secrets, pointer) is None,
        written(before, after, pointer, secret),
        leads_to_object(before.secrets, tokens(pointer)->Ok_0.drop_last()),
    ensures
        deleted(after.secrets, pointer) == Ok::<Json, Failure<Seq<char>>>(before.secrets),
{
    let sealed = choose|sealed: Seq<u8>| written_as(before, after, pointer, secret, sealed);
    lemma_tokens_nonempty(pointer);
    law_remove_undoes_set(
        before.secrets,
        tokens(pointer)->Ok_0,
        Json::String(hex_text(sealed)),
    );
}

/// At a pointer that can name a secret, none can be both created and updated,
/// and what can be read is what can be updated.
pub proof fn law_create_or_update(secrets: Json, pointer: Seq<char>)
    requires
        tokens(pointer) is Ok,
    ensures
        create_refusal(secrets, pointer) is Some || update_refusal(secrets, pointer) is Some,
        read_refusal(secrets, pointer) is None <==> update_refusal(secrets, pointer) is None,
{
}

/// The empty pointer lists the whole tree.
pub proof fn law_empty_pointer_lists_all(secrets: Json)
    ensures
        listed(secrets, Seq::empty()) == Ok::<Json, Failure<Seq<char>>>(secrets),
{
}

/// Listing where a secret was written shows its sealed form, not the secret.
pub proof fn law_listing_shows_sealed_form(
    before: FileState,
    after: FileState,
    pointer: Seq<char>,
    secret: Seq<u8>,
)
    requires
        written(before, after, pointer, secret),
    ensures
        exists|sealed: Seq<u8>|
            {
                &&& unsealed(before.key.key, sealed) == Ok::<Seq<u8>, Failure<Seq<char>>>(secret)
                &&& listed(after.secrets, pointer) == Ok::<Json, Failure<Seq<char>>>(
                    Json::String(#[trigger] hex_text(sealed)),
                )
            },
{
    let sealed = choose|sealed: Seq<u8>| written_as(before, after, pointer, secret, sealed);
    law_set_then_found(
        before.secrets,
        tokens(pointer)->Ok_0,
        Json::String(hex_text(sealed)),
    );
}

} // verus!
