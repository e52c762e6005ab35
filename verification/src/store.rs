//! What the engine knows of the versioned object store: the one operation it
//! may have in progress, and the failures it reports.

use vstd::prelude::*;

verus! {

/// The store's single "operation in progress" state.
#[derive(Clone, Copy, Debug, PartialEq, Eq, Structural)]
pub enum OperationState {
    /// No operation is in progress.
    Clean,
    /// A merge waits to be committed or aborted.
    Merge,
    /// A rebase is under way.
    Rebase,
    /// Some other operation (revert, cherry-pick, bisect, mailbox) is under way.
    Other,
}

impl OperationState {
    /// Whether a new history-mutating operation may start.
    pub fn is_clean(self) -> (r: bool)
        ensures
            r == (self == OperationState::Clean),
    {
        match self {
            OperationState::Clean => true,
            _ => false,
        }
    }

    /// Whether a rebase is under way.
    pub fn is_rebase(self) -> (r: bool)
        ensures
            r == (self == OperationState::Rebase),
    {
        match self {
            OperationState::Rebase => true,
            _ => false,
        }
    }
}

/// The class of a failure that the store reports.
#[derive(Clone, Copy, Debug, PartialEq, Eq, Structural)]
pub enum StoreErrorKind {
    /// What was asked for does not exist.
    NotFound,
    /// The repository is bare where a working tree is needed.
    BareRepo,
    /// HEAD names a branch that has no commit yet.
    UnbornBranch,
    /// Any other failure.
    Other,
}

/// A failure that the store reports: its class and its own words.
#[derive(Clone, Debug)]
pub struct StoreError {
    pub kind: StoreErrorKind,
    pub message: String,
}

} // verus!
