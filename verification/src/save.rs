//! The order in which a can file is replaced on disk.

use crate::can::{saved_state, Can, SavedFile};
use crate::error::{CanError, Failure};
use vstd::prelude::*;

verus! {

/// The extension of the temporary file, in place of the can file's own.
pub const TEMP_EXTENSION: &'static str = "json.tmp";

/// A step of saving: the new content goes to a temporary file, which then
/// takes the place of the can file.
#[derive(Clone, Copy, Debug, PartialEq, Eq, Structural)]
pub enum SaveStep {
    /// Create the temporary file.
    Create,
    /// Write the content to it.
    Write,
    /// Sync it to disk.
    Sync,
    /// Rename it to the can file.
    Replace,
}

/// The step that follows a successful one; none follows the last.
pub open spec fn step_after(step: SaveStep) -> Option<SaveStep> {
    match step {
        SaveStep::Create => Some(SaveStep::Write),
        SaveStep::Write => Some(SaveStep::Sync),
        SaveStep::Sync => Some(SaveStep::Replace),
        SaveStep::Replace => None,
    }
}

/// What is said of a failed step.
pub open spec fn step_failure(step: SaveStep, path: Seq<char>, temp: Seq<char>) -> Failure<
    Seq<char>,
> {
    match step {
        SaveStep::Create => Failure::CreateTemp(temp),
        SaveStep::Write => Failure::WriteTemp(temp),
        SaveStep::Sync => Failure::SyncTemp(temp),
        SaveStep::Replace => Failure::Replace(path, temp),
    }
}

/// A can that is being saved.
#[derive(Debug)]
pub struct Saving<'a> {
    /// The can whose file is the content to write.
    pub can: &'a Can,
    /// What is to be done next.
    pub step: SaveStep,
}

impl Can {
    /// Starts saving.
    pub fn save_atomic(&self) -> (saving: Saving<'_>)
        ensures
            saving.can@ == self@,
            saving.step == SaveStep::Create,
    {
        Saving { can: self, step: SaveStep::Create }
    }
}

impl<'a> Saving<'a> {
    /// The content of the file to be saved.
    pub fn content(&self) -> (content: SavedFile)
        ensures
            content@ == saved_state(self.can@.file),
    {
        self.can.file().saved()
    }

    /// Goes on once a step was tried: to another step, or to nothing more once
    /// the can is saved. A failed step ends the saving. The texts show the can
    /// file and the temporary file.
    pub fn advance(self, succeeded: bool, path: &str, temp: &str) -> (next: Result<
        Option<Saving<'a>>,
        CanError,
    >)
        ensures
            match next {
                Ok(Some(saving)) => succeeded && step_after(self.step) == Some(saving.step)
                    && saving.can@ == self.can@,
                Ok(None) => succeeded && step_after(self.step) is None,
                Err(e) => !succeeded && e@ == step_failure(self.step, path@, temp@),
            },
    {
        if succeeded {
            let step = match self.step {
                SaveStep::Create => SaveStep::Write,
                SaveStep::Write => SaveStep::Sync,
                SaveStep::Sync => SaveStep::Replace,
                SaveStep::Replace => {
                    return Ok(None);
                },
            };
            return Ok(Some(Saving { can: self.can, step }));
        }
        Err(
            match self.step {
                SaveStep::Create => Failure::CreateTemp(temp.to_owned()),
                SaveStep::Write => Failure::WriteTemp(temp.to_owned()),
                SaveStep::Sync => Failure::SyncTemp(temp.to_owned()),
                SaveStep::Replace => Failure::Replace(path.to_owned(), temp.to_owned()),
            },
        )
    }
}

/// The steps performed from `step` on, where `succeeds` says of each whether
/// it succeeds.
pub open spec fn performed(step: SaveStep, succeeds: spec_fn(SaveStep) -> bool) -> Seq<SaveStep>
    decreases
            (match step {
                SaveStep::Create => 3int,
                SaveStep::Write => 2int,
                SaveStep::Sync => 1int,
                SaveStep::Replace => 0int,
            }),
{
    seq![step] + match step_after(step) {
        Some(next) if succeeds(step) => performed(next, succeeds),
        _ => Seq::empty(),
    }
}

/// The can file is touched only by the rename, and only once the temporary
/// file was created, written and synced.
pub proof fn law_replaced_only_when_synced(succeeds: spec_fn(SaveStep) -> bool)
    ensures
        performed(SaveStep::Create, succeeds).contains(SaveStep::Replace) <==> (succeeds(
            SaveStep::Create,
        ) && succeeds(SaveStep::Write) && succeeds(SaveStep::Sync)),
        performed(SaveStep::Create, succeeds).contains(SaveStep::Replace) ==> performed(
            SaveStep::Create,
            succeeds,
        ) == seq![SaveStep::Create, SaveStep::Write, SaveStep::Sync, SaveStep::Replace],
{
    reveal_with_fuel(performed, 4);
    let steps = performed(SaveStep::Create, succeeds);
    if succeeds(SaveStep::Create) && succeeds(SaveStep::Write) && succeeds(SaveStep::Sync) {
        assert(steps =~= seq![
            SaveStep::Create,
            SaveStep::Write,
            SaveStep::Sync,
            SaveStep::Replace,
        ]);
        assert(steps[3] == SaveStep::Replace);
    }
}

} // verus!
