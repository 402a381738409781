use vstd::prelude::*;

use crate::manifest::ValidationError;

verus! {

/// The step of a commit that failed.
#[derive(Debug, Clone, Copy, PartialEq, Eq, Structural)]
pub enum CommitPhase {
    RemoveStaleBackup,
    Backup,
    CreateParent,
    Stage,
    Swap,
    Restore,
}

/// Why an install run stopped.
#[derive(Debug, Clone)]
pub enum InstallError {
    /// Specific mode was chosen without a target directory.
    Config,
    /// A fetch answered with a status outside the success range.
    Fetch { status: u16 },
    /// The manifest is incomplete.
    Validation(ValidationError),
    /// The archive does not hash to the manifest's digest.
    Integrity,
    /// The archive could not be opened or one of its entries could not be read.
    Archive,
    /// An archive entry names a path outside the extraction directory.
    UnsafeEntry { name: String },
    /// A file the manifest requires is not in the extracted archive.
    MissingFile { name: String },
    /// The commit failed in the given phase; `restored` tells whether the
    /// previous installation was put back.
    Commit { phase: CommitPhase, restored: bool },
    /// An event arrived that the current stage of a run or commit does not expect.
    OutOfOrder,
}

} // verus!
