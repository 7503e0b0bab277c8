//! The command line: what each action does, from one piece of input to the
//! next.

use crate::can::{
    create_refusal, deleted, insertion, listed, read_refusal, secret_at, update_refusal, with_key,
    Can, CanState, FileState,
};
use crate::error::{CanError, Failure};
use crate::opener::derived_key;
use crate::secret::SecretBytes;
use crate::text::joined;
use crate::value::Value;
use std::path::PathBuf;
use vstd::prelude::*;

verus! {

/// The arguments of the command line.
#[derive(Debug)]
pub struct Cli {
    /// The path of the can file.
    pub file: PathBuf,
    /// What to do.
    pub action: Actions,
}

/// What can be done with a can.
#[derive(Debug)]
pub enum Actions {
    /// Create a secret.
    Create {
        /// Where to create it.
        pointer: String,
        /// How many bytes to generate, or at most to read from a pipe.
        length: usize,
        /// Whether to generate it.
        generate: bool,
    },
    /// Read a secret.
    Read {
        /// Where it is.
        pointer: String,
    },
    /// Update a secret.
    Update {
        /// Where it is.
        pointer: String,
        /// How many bytes to generate, or at most to read from a pipe.
        length: usize,
        /// Whether to generate it.
        generate: bool,
    },
    /// Delete a secret or a subtree.
    Delete {
        /// Where it is.
        pointer: String,
    },
    /// List a subtree.
    List {
        /// Where it is; the empty pointer names the whole tree.
        pointer: String,
    },
}

/// How a secret is written.
#[derive(Clone, Copy, Debug, PartialEq, Eq, Structural)]
pub enum WriteMode {
    Create,
    Update,
}

/// A secret to be written once it is there.
#[derive(Debug)]
pub struct Writing {
    pub can: Can,
    pub mode: WriteMode,
    pub pointer: String,
    pub length: usize,
    pub generate: bool,
}

/// A secret to be read once the can is unlocked.
#[derive(Debug)]
pub struct Reading {
    pub can: Can,
    pub pointer: String,
}

/// What comes next.
#[derive(Debug)]
pub enum Step {
    /// Ask for the passphrase, to be confirmed where the flag says so, and go
    /// on with [`Writing::unlock`].
    UnlockToWrite(Writing, bool),
    /// Ask for the passphrase and go on with [`Reading::finish`].
    UnlockToRead(Reading),
    /// Save the can and report.
    Save(Can, String),
    /// Show a subtree.
    ShowTree(Value),
}

/// Whether `step` asks for the passphrase of `can` to write a secret as told.
pub open spec fn unlocks_to_write(
    step: Step,
    can: CanState,
    mode: WriteMode,
    pointer: Seq<char>,
    length: usize,
    generate: bool,
    confirm: bool,
) -> bool {
    match step {
        Step::UnlockToWrite(writing, c) => {
            &&& writing.can@ == can
            &&& writing.mode == mode
            &&& writing.pointer@ == pointer
            &&& writing.length == length
            &&& writing.generate == generate
            &&& c == confirm
        },
        _ => false,
    }
}

/// Starts an action on a can. What can be refused without the passphrase is
/// refused here; deleting and listing never ask for it. A passphrase is to be
/// confirmed where it is typed for a new can.
pub fn start(can: Can, is_new: bool, action: Actions, stdin_is_terminal: bool) -> (step: Result<
    Step,
    CanError,
>)
    ensures
        match action {
            Actions::Create { pointer, length, generate } => match create_refusal(
                can@.file.secrets,
                pointer@,
            ) {
                Some(e) => step is Err && step->Err_0@ == e,
                None => step is Ok && unlocks_to_write(
                    step->Ok_0,
                    can@,
                    WriteMode::Create,
                    pointer@,
                    length,
                    generate,
                    is_new && stdin_is_terminal,
                ),
            },
            Actions::Read { pointer } => match read_refusal(can@.file.secrets, pointer@) {
                Some(e) => step is Err && step->Err_0@ == e,
                None => step matches Ok(Step::UnlockToRead(reading)) && reading.can@ == can@
                    && reading.pointer@ == pointer@,
            },
            Actions::Update { pointer, length, generate } => match update_refusal(
                can@.file.secrets,
                pointer@,
            ) {
                Some(e) => step is Err && step->Err_0@ == e,
                None => step is Ok && unlocks_to_write(
                    step->Ok_0,
                    can@,
                    WriteMode::Update,
                    pointer@,
                    length,
                    generate,
                    false,
                ),
            },
            Actions::Delete { pointer } => match deleted(can@.file.secrets, pointer@) {
                Err(e) => step is Err && step->Err_0@ == e,
                Ok(secrets) => step matches Ok(Step::Save(c, report)) && c@ == (CanState {
                    file: FileState { secrets, ..can@.file },
                    ..can@
                }) && report@ == "deleted "@ + pointer@,
            },
            Actions::List { pointer } => match listed(can@.file.secrets, pointer@) {
                Err(e) => step is Err && step->Err_0@ == e,
                Ok(value) => step matches Ok(Step::ShowTree(v)) && v@ == value,
            },
        },
{
    let mut can = can;
    match action {
        Actions::Create { pointer, length, generate } => {
            can.validate_create(pointer.as_str())?;
            let confirm = is_new && stdin_is_terminal;
            let mode = WriteMode::Create;
            Ok(Step::UnlockToWrite(Writing { can, mode, pointer, length, generate }, confirm))
        },
        Actions::Read { pointer } => {
            can.validate_read(pointer.as_str())?;
            Ok(Step::UnlockToRead(Reading { can, pointer }))
        },
        Actions::Update { pointer, length, generate } => {
            can.validate_update(pointer.as_str())?;
            let mode = WriteMode::Update;
            Ok(Step::UnlockToWrite(Writing { can, mode, pointer, length, generate }, false))
        },
        Actions::Delete { pointer } => {
            can.delete(pointer.as_str())?;
            let report = joined("deleted ", pointer.as_str());
            Ok(Step::Save(can, report))
        },
        Actions::List { pointer } => match can.list(pointer.as_str()) {
            Ok(value) => Ok(Step::ShowTree(value)),
            Err(e) => Err(e),
        },
    }
}

impl Writing {
    /// Unlocks the can. The secret is to be had next.
    pub fn unlock(self, passphrase: &SecretBytes) -> (unlocked: Result<Writing, CanError>)
        ensures
            match derived_key(self.can@.file.key.meta, passphrase@) {
                Err(e) => unlocked is Err && unlocked->Err_0@ == e,
                Ok(key) => unlocked matches Ok(w) && w.can@ == (CanState {
                    file: with_key(self.can@.file, Some(key)),
                    ..self.can@
                }) && w.mode == self.mode && w.pointer@ == self.pointer@ && w.length
                    == self.length && w.generate == self.generate,
            },
    {
        let mut writing = self;
        match writing.can.unlock(passphrase) {
            Ok(()) => Ok(writing),
            Err(e) => Err(e),
        }
    }

    /// Writes the secret. The can is to be saved next, and the report shown.
    pub fn finish(self, secret: SecretBytes) -> (saved: Result<(Can, String), CanError>)
        ensures
            match (match self.mode {
                WriteMode::Create => create_refusal(self.can@.file.secrets, self.pointer@),
                WriteMode::Update => update_refusal(self.can@.file.secrets, self.pointer@),
            }) {
                Some(e) => saved is Err && saved->Err_0@ == e,
                None => match saved {
                    Ok((can, report)) => {
                        &&& can@.path == self.can@.path
                        &&& insertion(
                            self.can@.file,
                            can@.file,
                            self.pointer@,
                            secret@,
                            Ok::<(), Failure<Seq<char>>>(()),
                        )
                        &&& report@ == (match self.mode {
                            WriteMode::Create => "created "@,
                            WriteMode::Update => "updated "@,
                        }) + self.pointer@
                    },
                    Err(e) => insertion(
                        self.can@.file,
                        self.can@.file,
                        self.pointer@,
                        secret@,
                        Err::<(), Failure<Seq<char>>>(e@),
                    ),
                },
            },
    {
        let mut can = self.can;
        let result = match self.mode {
            WriteMode::Create => can.create(self.pointer.as_str(), secret),
            WriteMode::Update => can.update(self.pointer.as_str(), secret),
        };
        result?;
        let report = match self.mode {
            WriteMode::Create => joined("created ", self.pointer.as_str()),
            WriteMode::Update => joined("updated ", self.pointer.as_str()),
        };
        Ok((can, report))
    }
}

impl Reading {
    /// Unlocks the can and reads the secret. It is to be shown next.
    pub fn finish(self, passphrase: &SecretBytes) -> (secret: Result<SecretBytes, CanError>)
        ensures
            match derived_key(self.can@.file.key.meta, passphrase@) {
                Err(e) => secret is Err && secret->Err_0@ == e,
                Ok(key) => match secret {
                    Ok(s) => secret_at(with_key(self.can@.file, Some(key)), self.pointer@) == Ok::<
                        Seq<u8>,
                        Failure<Seq<char>>,
                    >(s@),
                    Err(e) => secret_at(with_key(self.can@.file, Some(key)), self.pointer@)
                        == Err::<Seq<u8>, Failure<Seq<char>>>(e@),
                },
            },
    {
        let mut can = self.can;
        match can.unlock(passphrase) {
            Ok(()) => can.read(self.pointer.as_str()),
            Err(e) => Err(e),
        }
    }
}

} // verus!
