//! Reconciling local history with a remote: fetch, classify, then
//! fast-forward, merge or rebase. The session decides each step; the store
//! performs it and reports back.

use crate::conflict::{copy_conflicts, ConflictFile, ConflictModel};
use crate::store::OperationState;
use crate::text::{append_decimal, decimal};
use vstd::prelude::*;

verus! {

pub const ANALYSIS_UP_TO_DATE: u32 = 0x2;

pub const ANALYSIS_FASTFORWARD: u32 = 0x4;

/// `git2::MergeAnalysis::is_up_to_date` on the flags `bits`: whether the
/// flag `ANALYSIS_UP_TO_DATE` (bit 1) is set.
#[verifier::external_body]
fn analysis_up_to_date(bits: u32) -> (r: bool)
    ensures
        r == (bits & ANALYSIS_UP_TO_DATE != 0),
{
    git2::MergeAnalysis::from_bits_truncate(bits).is_up_to_date()
}

/// `git2::MergeAnalysis::is_fast_forward` on the flags `bits`: whether the
/// flag `ANALYSIS_FASTFORWARD` (bit 2) is set.
#[verifier::external_body]
fn analysis_fast_forward(bits: u32) -> (r: bool)
    ensures
        r == (bits & ANALYSIS_FASTFORWARD != 0),
{
    git2::MergeAnalysis::from_bits_truncate(bits).is_fast_forward()
}

/// How local and remote history are brought together where they diverged.
#[derive(Clone, Copy, Debug, PartialEq, Eq, Structural)]
pub enum PullStrategy {
    Merge,
    Rebase,
}

/// How the local head stands to the fetched tip.
#[derive(Clone, Copy, Debug, PartialEq, Eq, Structural)]
pub enum Relation {
    /// The fetched tip is already part of local history.
    UpToDate,
    /// Local history is part of the fetched tip's: the branch can move.
    FastForward,
    /// Each side has commits the other lacks.
    Diverged,
}

impl Relation {
    /// The relation that the store's merge analysis stands for.
    pub open spec fn of_analysis(bits: u32) -> Relation {
        if bits & ANALYSIS_UP_TO_DATE != 0 {
            Relation::UpToDate
        } else if bits & ANALYSIS_FASTFORWARD != 0 {
            Relation::FastForward
        } else {
            Relation::Diverged
        }
    }

    /// The relation that the store's merge analysis stands for.
    pub fn classify(bits: u32) -> (r: Relation)
        ensures
            r == Self::of_analysis(bits),
    {
        if analysis_up_to_date(bits) {
            Relation::UpToDate
        } else if analysis_fast_forward(bits) {
            Relation::FastForward
        } else {
            Relation::Diverged
        }
    }
}

/// The way a pull takes once the relation is known.
#[derive(Clone, Copy, Debug, PartialEq, Eq, Structural)]
pub enum Route {
    Undecided,
    UpToDate,
    FastForward,
    Merge,
    Rebase,
}

/// Where a pull stands.
#[derive(Clone, Copy, Debug, PartialEq, Eq, Structural)]
pub enum PullState {
    Fetching,
    Analyzing,
    FastForwarding,
    Merging,
    CommittingMerge,
    CleaningUp,
    BeginningRebase,
    Replaying,
    AbortingRebase,
    FinishingRebase,
    /// The pull is over. A merge that met conflicts is left open.
    Done,
    /// The store is asked to put back the state before the merge.
    AbortingMerge,
    /// The open merge was aborted.
    MergeAborted,
    Failed,
}

/// What a pull asks of the store.
#[derive(Clone, Debug)]
pub enum PullCommand {
    /// Fetch the branch from the remote.
    Fetch { remote: String, branch: String },
    /// Analyse how HEAD stands to the fetched tip.
    Analyze { tip: String },
    /// Point the branch at the fetched tip and check it out.
    FastForward { refname: String, target: String },
    /// Merge the fetched tip into the index.
    Merge { tip: String },
    /// Write the index as a commit with HEAD and the fetched tip as parents.
    CommitMerge { message: String, theirs: String },
    /// Clear the merge bookkeeping.
    Cleanup,
    /// Begin replaying the local commits onto the fetched tip.
    BeginRebase { onto: String },
    /// Replay the next local commit and write it.
    ReplayNext,
    /// Abort the rebase and put the pre-rebase state back.
    AbortRebase,
    /// Finish the rebase.
    FinishRebase,
    /// Put HEAD, the index and the working tree back to the commit `head`
    /// and clear the merge bookkeeping.
    AbortMerge { head: String },
    /// Nothing: the pull is over.
    Wait,
}

/// What a `PullCommand` holds, as mathematical values.
pub enum PullCommandModel {
    Fetch { remote: Seq<char>, branch: Seq<char> },
    Analyze { tip: Seq<char> },
    FastForward { refname: Seq<char>, target: Seq<char> },
    Merge { tip: Seq<char> },
    CommitMerge { message: Seq<char>, theirs: Seq<char> },
    Cleanup,
    BeginRebase { onto: Seq<char> },
    ReplayNext,
    AbortRebase,
    FinishRebase,
    AbortMerge { head: Seq<char> },
    Wait,
}

impl DeepView for PullCommand {
    type V = PullCommandModel;

    open spec fn deep_view(&self) -> PullCommandModel {
        match self {
            PullCommand::Fetch { remote, branch } => PullCommandModel::Fetch {
                remote: remote@,
                branch: branch@,
            },
            PullCommand::Analyze { tip } => PullCommandModel::Analyze { tip: tip@ },
            PullCommand::FastForward { refname, target } => PullCommandModel::FastForward {
                refname: refname@,
                target: target@,
            },
            PullCommand::Merge { tip } => PullCommandModel::Merge { tip: tip@ },
            PullCommand::CommitMerge { message, theirs } => PullCommandModel::CommitMerge {
                message: message@,
                theirs: theirs@,
            },
            PullCommand::Cleanup => PullCommandModel::Cleanup,
            PullCommand::BeginRebase { onto } => PullCommandModel::BeginRebase { onto: onto@ },
            PullCommand::ReplayNext => PullCommandModel::ReplayNext,
            PullCommand::AbortRebase => PullCommandModel::AbortRebase,
            PullCommand::FinishRebase => PullCommandModel::FinishRebase,
            PullCommand::AbortMerge { head } => PullCommandModel::AbortMerge { head: head@ },
            PullCommand::Wait => PullCommandModel::Wait,
        }
    }
}

impl PullCommandModel {
    /// The command makes the store write a commit.
    pub open spec fn writes_commit(self) -> bool {
        self is CommitMerge || self is ReplayNext
    }
}

/// What the store reports back after a command of a pull.
#[derive(Clone, Debug)]
pub enum PullEvent {
    /// The fetch is done; `tip` is the commit the remote branch points at.
    Fetched { tip: String },
    /// The merge analysis, as the store's flags.
    Analyzed { bits: u32 },
    /// The branch was moved and checked out.
    Moved,
    /// The merge went into the index, leaving these conflicts.
    Merged { conflicts: Vec<ConflictFile> },
    /// The merge commit was written.
    Committed,
    /// The merge bookkeeping was cleared.
    Cleaned,
    /// The rebase has begun.
    Begun,
    /// One local commit was replayed and written.
    Applied,
    /// No local commit is left to replay.
    Exhausted,
    /// Replaying a commit left these conflicts.
    Conflicted { conflicts: Vec<ConflictFile> },
    /// The rebase was aborted.
    Aborted,
    /// The rebase was finished.
    Finished,
    /// The state before the merge was put back.
    Restored,
    /// The command failed for a reason other than conflicts.
    Failed { reason: String },
}

/// What a `PullEvent` holds, as mathematical values.
pub enum PullEventModel {
    Fetched { tip: Seq<char> },
    Analyzed { bits: u32 },
    Moved,
    Merged { conflicts: Seq<ConflictModel> },
    Committed,
    Cleaned,
    Begun,
    Applied,
    Exhausted,
    Conflicted { conflicts: Seq<ConflictModel> },
    Aborted,
    Finished,
    Restored,
    Failed { reason: Seq<char> },
}

impl DeepView for PullEvent {
    type V = PullEventModel;

    open spec fn deep_view(&self) -> PullEventModel {
        match self {
            PullEvent::Fetched { tip } => PullEventModel::Fetched { tip: tip@ },
            PullEvent::Analyzed { bits } => PullEventModel::Analyzed { bits: *bits },
            PullEvent::Moved => PullEventModel::Moved,
            PullEvent::Merged { conflicts } => PullEventModel::Merged {
                conflicts: conflicts.deep_view(),
            },
            PullEvent::Committed => PullEventModel::Committed,
            PullEvent::Cleaned => PullEventModel::Cleaned,
            PullEvent::Begun => PullEventModel::Begun,
            PullEvent::Applied => PullEventModel::Applied,
            PullEvent::Exhausted => PullEventModel::Exhausted,
            PullEvent::Conflicted { conflicts } => PullEventModel::Conflicted {
                conflicts: conflicts.deep_view(),
            },
            PullEvent::Aborted => PullEventModel::Aborted,
            PullEvent::Finished => PullEventModel::Finished,
            PullEvent::Restored => PullEventModel::Restored,
            PullEvent::Failed { reason } => PullEventModel::Failed { reason: reason@ },
        }
    }
}

/// What a pull reports to the caller.
#[derive(Clone, Debug)]
pub struct PullResult {
    pub success: bool,
    pub conflicts: Vec<ConflictFile>,
    pub commits_received: usize,
    pub message: String,
}

/// What a `PullResult` holds, as mathematical values.
pub struct PullResultModel {
    pub success: bool,
    pub conflicts: Seq<ConflictModel>,
    pub commits_received: nat,
    pub message: Seq<char>,
}

impl DeepView for PullResult {
    type V = PullResultModel;

    open spec fn deep_view(&self) -> PullResultModel {
        PullResultModel {
            success: self.success,
            conflicts: self.conflicts.deep_view(),
            commits_received: self.commits_received as nat,
            message: self.message@,
        }
    }
}

/// A pull under way.
#[derive(Clone, Debug)]
pub struct PullSession {
    pub remote: String,
    pub branch: String,
    pub strategy: PullStrategy,
    pub state: PullState,
    pub route: Route,
    /// The commit HEAD pointed at before the pull began.
    pub original_head: String,
    /// The fetched tip, once the fetch is done.
    pub tip: String,
    /// How many local commits were replayed.
    pub applied: usize,
    /// The conflicts that the merge or the replay left.
    pub conflicts: Vec<ConflictFile>,
    /// Why the pull failed, once it has.
    pub failure: Option<String>,
}

/// What a `PullSession` holds, as mathematical values.
pub struct PullModel {
    pub remote: Seq<char>,
    pub branch: Seq<char>,
    pub strategy: PullStrategy,
    pub state: PullState,
    pub route: Route,
    pub original_head: Seq<char>,
    pub tip: Seq<char>,
    pub applied: nat,
    pub conflicts: Seq<ConflictModel>,
    pub failure: Option<Seq<char>>,
}

impl DeepView for PullSession {
    type V = PullModel;

    open spec fn deep_view(&self) -> PullModel {
        PullModel {
            remote: self.remote@,
            branch: self.branch@,
            strategy: self.strategy,
            state: self.state,
            route: self.route,
            original_head: self.original_head@,
            tip: self.tip@,
            applied: self.applied as nat,
            conflicts: self.conflicts.deep_view(),
            failure: self.failure.deep_view(),
        }
    }
}

pub open spec fn branch_refname(branch: Seq<char>) -> Seq<char> {
    "refs/heads/"@ + branch
}

pub open spec fn merge_commit_message(branch: Seq<char>) -> Seq<char> {
    "Merge branch '"@ + branch + "' of remote"@
}

pub open spec fn merge_conflict_message(count: nat) -> Seq<char> {
    "Merge has "@ + decimal(count) + " conflict(s). Please resolve them manually."@
}

pub open spec fn rebase_conflict_message(count: nat) -> Seq<char> {
    "Rebase failed with "@ + decimal(count) + " conflict(s). The rebase has been aborted."@
}

pub open spec fn rebase_done_message(applied: nat) -> Seq<char> {
    "Rebase completed successfully ("@ + decimal(applied) + " commits applied)"@
}

pub open spec fn merge_aborted_message() -> Seq<char> {
    "Merge aborted. Repository returned to its state before the pull."@
}

pub open spec fn no_merge_message() -> Seq<char> {
    "No merge in progress"@
}

pub open spec fn unexpected_pull_event_message() -> Seq<char> {
    "Internal error: the repository reported a step that the pull did not ask for"@
}

/// The words that introduce the store's reason where a command fails.
pub open spec fn failure_lead(state: PullState) -> Seq<char> {
    match state {
        PullState::Fetching => "Failed to fetch from remote: "@,
        PullState::Analyzing => "Failed to analyze merge: "@,
        PullState::FastForwarding => "Failed to fast-forward: "@,
        PullState::Merging => "Merge failed: "@,
        PullState::CommittingMerge => "Failed to create merge commit: "@,
        PullState::CleaningUp => "Failed to cleanup state: "@,
        PullState::BeginningRebase => "Failed to initialize rebase: "@,
        PullState::Replaying => "Failed to apply commit during rebase: "@,
        PullState::AbortingRebase => "Failed to abort rebase: "@,
        PullState::FinishingRebase => "Failed to finish rebase: "@,
        PullState::AbortingMerge => "Failed to abort merge: "@,
        PullState::MergeAborted => Seq::empty(),
        PullState::Done => Seq::empty(),
        PullState::Failed => Seq::empty(),
    }
}

impl PullModel {
    /// The route fits the state: a pull leaves its route only by ending.
    pub open spec fn wf(self) -> bool {
        match self.state {
            PullState::Fetching | PullState::Analyzing => self.route == Route::Undecided,
            PullState::FastForwarding => self.route == Route::FastForward,
            PullState::Merging | PullState::CommittingMerge | PullState::CleaningUp
            | PullState::AbortingMerge | PullState::MergeAborted => self.route == Route::Merge,
            PullState::BeginningRebase | PullState::Replaying | PullState::AbortingRebase
            | PullState::FinishingRebase => self.route == Route::Rebase,
            PullState::Done => self.route != Route::Undecided,
            PullState::Failed => true,
        }
    }

    /// A merge is left open: the pull ended in a merge that met conflicts.
    pub open spec fn merge_open(self) -> bool {
        self.state == PullState::Done && self.route == Route::Merge && self.conflicts.len() > 0
    }

    /// The pull once the caller asks to abort its open merge.
    pub open spec fn merge_abort_requested(self) -> PullModel {
        PullModel { state: PullState::AbortingMerge, ..self }
    }

    /// What the pull asks of the store next.
    pub open spec fn command(self) -> PullCommandModel {
        match self.state {
            PullState::Fetching => PullCommandModel::Fetch {
                remote: self.remote,
                branch: self.branch,
            },
            PullState::Analyzing => PullCommandModel::Analyze { tip: self.tip },
            PullState::FastForwarding => PullCommandModel::FastForward {
                refname: branch_refname(self.branch),
                target: self.tip,
            },
            PullState::Merging => PullCommandModel::Merge { tip: self.tip },
            PullState::CommittingMerge => PullCommandModel::CommitMerge {
                message: merge_commit_message(self.branch),
                theirs: self.tip,
            },
            PullState::CleaningUp => PullCommandModel::Cleanup,
            PullState::BeginningRebase => PullCommandModel::BeginRebase { onto: self.tip },
            PullState::Replaying => PullCommandModel::ReplayNext,
            PullState::AbortingRebase => PullCommandModel::AbortRebase,
            PullState::FinishingRebase => PullCommandModel::FinishRebase,
            PullState::AbortingMerge => PullCommandModel::AbortMerge { head: self.original_head },
            PullState::Done | PullState::MergeAborted | PullState::Failed => PullCommandModel::Wait,
        }
    }

    /// The pull in another state.
    pub open spec fn at(self, state: PullState) -> PullModel {
        PullModel { state, ..self }
    }

    /// The pull once it has failed.
    pub open spec fn broken(self, why: Seq<char>) -> PullModel {
        PullModel { state: PullState::Failed, failure: Some(why), ..self }
    }

    /// The pull once the relation of HEAD to the fetched tip is known.
    pub open spec fn routed(self, relation: Relation) -> PullModel {
        match relation {
            Relation::UpToDate => PullModel {
                state: PullState::Done,
                route: Route::UpToDate,
                ..self
            },
            Relation::FastForward => PullModel {
                state: PullState::FastForwarding,
                route: Route::FastForward,
                ..self
            },
            Relation::Diverged => match self.strategy {
                PullStrategy::Merge => PullModel {
                    state: PullState::Merging,
                    route: Route::Merge,
                    ..self
                },
                PullStrategy::Rebase => PullModel {
                    state: PullState::BeginningRebase,
                    route: Route::Rebase,
                    ..self
                },
            },
        }
    }

    /// The pull after the store's answer to its command.
    pub open spec fn next(self, event: PullEventModel) -> PullModel {
        if self.state == PullState::Done || self.state == PullState::Failed || self.state
            == PullState::MergeAborted {
            self
        } else if event is Failed {
            let why = failure_lead(self.state) + event->reason;
            if self.state == PullState::Replaying {
                PullModel { state: PullState::AbortingRebase, failure: Some(why), ..self }
            } else {
                self.broken(why)
            }
        } else {
            match (self.state, event) {
                (PullState::Fetching, PullEventModel::Fetched { tip }) => PullModel {
                    state: PullState::Analyzing,
                    tip,
                    ..self
                },
                (PullState::Analyzing, PullEventModel::Analyzed { bits }) => self.routed(
                    Relation::of_analysis(bits),
                ),
                (PullState::FastForwarding, PullEventModel::Moved) => self.at(PullState::Done),
                (PullState::Merging, PullEventModel::Merged { conflicts }) => if conflicts.len()
                    > 0 {
                    PullModel { state: PullState::Done, conflicts, ..self }
                } else {
                    self.at(PullState::CommittingMerge)
                },
                (PullState::CommittingMerge, PullEventModel::Committed) => self.at(
                    PullState::CleaningUp,
                ),
                (PullState::CleaningUp, PullEventModel::Cleaned) => self.at(PullState::Done),
                (PullState::BeginningRebase, PullEventModel::Begun) => self.at(
                    PullState::Replaying,
                ),
                (PullState::Replaying, PullEventModel::Applied) => PullModel {
                    applied: if self.applied < usize::MAX {
                        self.applied + 1
                    } else {
                        self.applied
                    },
                    ..self
                },
                (PullState::Replaying, PullEventModel::Exhausted) => self.at(
                    PullState::FinishingRebase,
                ),
                (PullState::Replaying, PullEventModel::Conflicted { conflicts }) => if conflicts.len()
                    > 0 {
                    PullModel { state: PullState::AbortingRebase, conflicts, ..self }
                } else {
                    self.broken(unexpected_pull_event_message())
                },
                (PullState::AbortingRebase, PullEventModel::Aborted) => if self.failure is Some {
                    self.at(PullState::Failed)
                } else {
                    self.at(PullState::Done)
                },
                (PullState::FinishingRebase, PullEventModel::Finished) => self.at(PullState::Done),
                (PullState::AbortingMerge, PullEventModel::Restored) => PullModel {
                    state: PullState::MergeAborted,
                    conflicts: Seq::empty(),
                    ..self
                },
                _ => self.broken(unexpected_pull_event_message()),
            }
        }
    }

    /// What the pull reports once it is over: nothing before that.
    pub open spec fn outcome(self) -> Option<Result<PullResultModel, Seq<char>>> {
        match self.state {
            PullState::Failed => Some(
                Err(
                    match self.failure {
                        Some(why) => why,
                        None => unexpected_pull_event_message(),
                    },
                ),
            ),
            PullState::MergeAborted => Some(
                Ok(
                    PullResultModel {
                        success: true,
                        conflicts: Seq::empty(),
                        commits_received: 0,
                        message: merge_aborted_message(),
                    },
                ),
            ),
            PullState::Done => Some(
                Ok(
                    if self.conflicts.len() > 0 {
                        PullResultModel {
                            success: false,
                            conflicts: self.conflicts,
                            commits_received: 0,
                            message: if self.route == Route::Rebase {
                                rebase_conflict_message(self.conflicts.len())
                            } else {
                                merge_conflict_message(self.conflicts.len())
                            },
                        }
                    } else {
                        PullResultModel {
                            success: true,
                            conflicts: Seq::empty(),
                            commits_received: match self.route {
                                Route::Rebase => self.applied,
                                Route::FastForward | Route::Merge => 1,
                                _ => 0,
                            },
                            message: match self.route {
                                Route::Rebase => rebase_done_message(self.applied),
                                Route::FastForward => "Fast-forward merge completed"@,
                                Route::Merge => "Merge completed successfully"@,
                                _ => "Already up to date"@,
                            },
                        }
                    },
                ),
            ),
            _ => None,
        }
    }
}

/// Every step of a pull keeps the route fitting the state, and leaves the
/// remote, the branch, the strategy and the recorded head as they are.
pub proof fn lemma_pull_step(s: PullModel, event: PullEventModel)
    requires
        s.wf(),
    ensures
        s.next(event).wf(),
        s.next(event).original_head == s.original_head,
        s.next(event).remote == s.remote,
        s.next(event).branch == s.branch,
        s.next(event).strategy == s.strategy,
        s.route != Route::Undecided ==> s.next(event).route == s.route,
{
}

/// A pull that fast-forwards never asks the store to write a commit: it
/// asks for the branch to be pointed at the fetched tip, and for nothing
/// after that.
pub proof fn lemma_fast_forward_writes_no_commit(s: PullModel)
    requires
        s.wf(),
        s.route == Route::FastForward,
    ensures
        !s.command().writes_commit(),
        s.state == PullState::FastForwarding ==> s.command() == (PullCommandModel::FastForward {
            refname: branch_refname(s.branch),
            target: s.tip,
        }),
        s.state != PullState::FastForwarding ==> s.command() == PullCommandModel::Wait,
{
}

/// Once a pull is on the fast-forward route it stays on it, and the tip it
/// moves the branch to is the fetched one.
pub proof fn lemma_fast_forward_keeps_tip(s: PullModel, event: PullEventModel)
    requires
        s.wf(),
        s.route == Route::FastForward,
    ensures
        s.next(event).route == Route::FastForward,
        s.next(event).tip == s.tip,
        s.next(event).applied == s.applied,
{
}

/// A pull by rebase that meets conflicts leaves nothing half-applied: from
/// the conflict on, the only thing it asks of the store is to abort.
pub proof fn lemma_pull_rebase_conflict_aborts(s: PullModel, conflicts: Seq<ConflictModel>)
    requires
        s.wf(),
        s.state == PullState::Replaying,
        conflicts.len() > 0,
    ensures
        s.next(PullEventModel::Conflicted { conflicts }).command() == PullCommandModel::AbortRebase,
        s.next(PullEventModel::Conflicted { conflicts }).next(PullEventModel::Aborted).state == (
        if s.failure is Some {
            PullState::Failed
        } else {
            PullState::Done
        }),
{
}

/// A merge that meets conflicts ends the pull with the merge left open: no
/// commit is asked for, and none of the bookkeeping is cleared.
pub proof fn lemma_merge_conflict_stays_open(s: PullModel, conflicts: Seq<ConflictModel>)
    requires
        s.wf(),
        s.state == PullState::Merging,
        conflicts.len() > 0,
    ensures
        s.next(PullEventModel::Merged { conflicts }).state == PullState::Done,
        s.next(PullEventModel::Merged { conflicts }).command() == PullCommandModel::Wait,
        s.next(PullEventModel::Merged { conflicts }).conflicts == conflicts,
{
}

pub open spec fn dirty_pull_message() -> Seq<char> {
    "Working directory has uncommitted changes. Commit or stash them before pulling."@
}

pub open spec fn busy_pull_message() -> Seq<char> {
    "Another operation is already in progress. Finish or abort it first."@
}

pub open spec fn no_branch_message() -> Seq<char> {
    "Failed to get branch name"@
}

/// Why a pull may not begin, if it may not: an operation already in
/// progress, a dirty working directory, or a HEAD that names no branch.
pub open spec fn pull_refusal(
    operation: OperationState,
    uncommitted: bool,
    branch: Option<Seq<char>>,
) -> Option<Seq<char>> {
    if operation != OperationState::Clean {
        Some(busy_pull_message())
    } else if uncommitted {
        Some(dirty_pull_message())
    } else if branch is None {
        Some(no_branch_message())
    } else {
        None
    }
}

/// The pull at its start: about to fetch, with the head it starts from on
/// record.
pub open spec fn initial_pull(
    remote: Seq<char>,
    branch: Seq<char>,
    strategy: PullStrategy,
    head: Seq<char>,
) -> PullModel {
    PullModel {
        remote,
        branch,
        strategy,
        state: PullState::Fetching,
        route: Route::Undecided,
        original_head: head,
        tip: Seq::empty(),
        applied: 0,
        conflicts: Seq::empty(),
        failure: None,
    }
}

/// Begins a pull of the current branch from `remote_name`: refused while
/// another operation is in progress, changes are uncommitted, or HEAD names
/// no branch. `head` is the commit that HEAD points at; an open merge is
/// aborted back to it.
pub fn pull_from_remote(
    operation: OperationState,
    uncommitted: bool,
    current_branch: Option<String>,
    head: &str,
    remote_name: &str,
    strategy: PullStrategy,
) -> (r: Result<PullSession, String>)
    ensures
        match r {
            Ok(session) => {
                &&& pull_refusal(operation, uncommitted, current_branch.deep_view()) is None
                &&& session.deep_view() == initial_pull(
                    remote_name@,
                    current_branch->0@,
                    strategy,
                    head@,
                )
                &&& session.deep_view().wf()
            },
            Err(message) => pull_refusal(operation, uncommitted, current_branch.deep_view())
                == Some(message@),
        },
{
    if !operation.is_clean() {
        return Err(
            String::from_str("Another operation is already in progress. Finish or abort it first."),
        );
    }
    if uncommitted {
        return Err(
            String::from_str(
                "Working directory has uncommitted changes. Commit or stash them before pulling.",
            ),
        );
    }
    match current_branch {
        None => Err(String::from_str("Failed to get branch name")),
        Some(branch) => {
            let conflicts: Vec<ConflictFile> = Vec::new();
            assert(conflicts.deep_view() =~= Seq::<ConflictModel>::empty());
            Ok(
                PullSession {
                    remote: String::from_str(remote_name),
                    branch,
                    strategy,
                    state: PullState::Fetching,
                    route: Route::Undecided,
                    original_head: String::from_str(head),
                    tip: String::new(),
                    applied: 0,
                    conflicts,
                    failure: None,
                },
            )
        },
    }
}

fn lead_of(state: PullState) -> (s: &'static str)
    ensures
        s@ == failure_lead(state),
{
    match state {
        PullState::Fetching => "Failed to fetch from remote: ",
        PullState::Analyzing => "Failed to analyze merge: ",
        PullState::FastForwarding => "Failed to fast-forward: ",
        PullState::Merging => "Merge failed: ",
        PullState::CommittingMerge => "Failed to create merge commit: ",
        PullState::CleaningUp => "Failed to cleanup state: ",
        PullState::BeginningRebase => "Failed to initialize rebase: ",
        PullState::Replaying => "Failed to apply commit during rebase: ",
        PullState::AbortingRebase => "Failed to abort rebase: ",
        PullState::FinishingRebase => "Failed to finish rebase: ",
        PullState::AbortingMerge => "Failed to abort merge: ",
        PullState::Done | PullState::Failed | PullState::MergeAborted => {
            proof {
                reveal_strlit("");
            }
            assert(""@ =~= Seq::<char>::empty());
            ""
        },
    }
}

/// What the result of a pull matches.
pub open spec fn same_outcome(
    got: Option<Result<PullResult, String>>,
    want: Option<Result<PullResultModel, Seq<char>>>,
) -> bool {
    match (got, want) {
        (None, None) => true,
        (Some(Ok(a)), Some(Ok(b))) => a.deep_view() == b,
        (Some(Err(a)), Some(Err(b))) => a@ == b,
        _ => false,
    }
}

impl PullSession {
    /// What the pull asks of the store next.
    pub fn command(&self) -> (c: PullCommand)
        ensures
            c.deep_view() == self.deep_view().command(),
    {
        match self.state {
            PullState::Fetching => PullCommand::Fetch {
                remote: self.remote.clone(),
                branch: self.branch.clone(),
            },
            PullState::Analyzing => PullCommand::Analyze { tip: self.tip.clone() },
            PullState::FastForwarding => {
                let mut refname = String::from_str("refs/heads/");
                refname.append(self.branch.as_str());
                PullCommand::FastForward { refname, target: self.tip.clone() }
            },
            PullState::Merging => PullCommand::Merge { tip: self.tip.clone() },
            PullState::CommittingMerge => {
                let mut message = String::from_str("Merge branch '");
                message.append(self.branch.as_str());
                message.append("' of remote");
                PullCommand::CommitMerge { message, theirs: self.tip.clone() }
            },
            PullState::CleaningUp => PullCommand::Cleanup,
            PullState::BeginningRebase => PullCommand::BeginRebase { onto: self.tip.clone() },
            PullState::Replaying => PullCommand::ReplayNext,
            PullState::AbortingRebase => PullCommand::AbortRebase,
            PullState::FinishingRebase => PullCommand::FinishRebase,
            PullState::AbortingMerge => PullCommand::AbortMerge {
                head: self.original_head.clone(),
            },
            PullState::Done | PullState::MergeAborted | PullState::Failed => PullCommand::Wait,
        }
    }

    fn break_with(&mut self, why: String)
        ensures
            final(self).deep_view() == old(self).deep_view().broken(why@),
    {
        self.state = PullState::Failed;
        self.failure = Some(why);
    }

    fn break_unexpected(&mut self)
        ensures
            final(self).deep_view() == old(self).deep_view().broken(
                unexpected_pull_event_message(),
            ),
    {
        self.break_with(
            String::from_str(
                "Internal error: the repository reported a step that the pull did not ask for",
            ),
        );
    }

    fn route_by(&mut self, relation: Relation)
        ensures
            final(self).deep_view() == old(self).deep_view().routed(relation),
    {
        match relation {
            Relation::UpToDate => {
                self.state = PullState::Done;
                self.route = Route::UpToDate;
            },
            Relation::FastForward => {
                self.state = PullState::FastForwarding;
                self.route = Route::FastForward;
            },
            Relation::Diverged => match self.strategy {
                PullStrategy::Merge => {
                    self.state = PullState::Merging;
                    self.route = Route::Merge;
                },
                PullStrategy::Rebase => {
                    self.state = PullState::BeginningRebase;
                    self.route = Route::Rebase;
                },
            },
        }
    }

    /// Moves the pull by the store's answer to its last command.
    pub fn advance(&mut self, event: PullEvent)
        requires
            old(self).deep_view().wf(),
        ensures
            final(self).deep_view() == old(self).deep_view().next(event.deep_view()),
            final(self).deep_view().wf(),
    {
        proof {
            lemma_pull_step(self.deep_view(), event.deep_view());
        }
        let state = self.state;
        match state {
            PullState::Done | PullState::Failed | PullState::MergeAborted => {
                return ;
            },
            _ => {},
        }
        match event {
            PullEvent::Failed { reason } => {
                let mut why = String::from_str(lead_of(state));
                why.append(reason.as_str());
                match state {
                    PullState::Replaying => {
                        self.state = PullState::AbortingRebase;
                        self.failure = Some(why);
                    },
                    _ => {
                        self.break_with(why);
                    },
                }
            },
            PullEvent::Fetched { tip } => match state {
                PullState::Fetching => {
                    self.state = PullState::Analyzing;
                    self.tip = tip;
                },
                _ => {
                    self.break_unexpected();
                },
            },
            PullEvent::Analyzed { bits } => match state {
                PullState::Analyzing => {
                    self.route_by(Relation::classify(bits));
                },
                _ => {
                    self.break_unexpected();
                },
            },
            PullEvent::Moved => match state {
                PullState::FastForwarding => {
                    self.state = PullState::Done;
                },
                _ => {
                    self.break_unexpected();
                },
            },
            PullEvent::Merged { conflicts } => match state {
                PullState::Merging => {
                    if conflicts.len() > 0 {
                        self.state = PullState::Done;
                        self.conflicts = conflicts;
                    } else {
                        self.state = PullState::CommittingMerge;
                    }
                },
                _ => {
                    self.break_unexpected();
                },
            },
            PullEvent::Committed => match state {
                PullState::CommittingMerge => {
                    self.state = PullState::CleaningUp;
                },
                _ => {
                    self.break_unexpected();
                },
            },
            PullEvent::Cleaned => match state {
                PullState::CleaningUp => {
                    self.state = PullState::Done;
                },
                _ => {
                    self.break_unexpected();
                },
            },
            PullEvent::Begun => match state {
                PullState::BeginningRebase => {
                    self.state = PullState::Replaying;
                },
                _ => {
                    self.break_unexpected();
                },
            },
            PullEvent::Applied => match state {
                PullState::Replaying => {
                    if self.applied < usize::MAX {
                        self.applied = self.applied + 1;
                    }
                },
                _ => {
                    self.break_unexpected();
                },
            },
            PullEvent::Exhausted => match state {
                PullState::Replaying => {
                    self.state = PullState::FinishingRebase;
                },
                _ => {
                    self.break_unexpected();
                },
            },
            PullEvent::Conflicted { conflicts } => match state {
                PullState::Replaying => {
                    if conflicts.len() > 0 {
                        self.state = PullState::AbortingRebase;
                        self.conflicts = conflicts;
                    } else {
                        self.break_unexpected();
                    }
                },
                _ => {
                    self.break_unexpected();
                },
            },
            PullEvent::Aborted => match state {
                PullState::AbortingRebase => {
                    if self.failure.is_some() {
                        self.state = PullState::Failed;
                    } else {
                        self.state = PullState::Done;
                    }
                },
                _ => {
                    self.break_unexpected();
                },
            },
            PullEvent::Finished => match state {
                PullState::FinishingRebase => {
                    self.state = PullState::Done;
                },
                _ => {
                    self.break_unexpected();
                },
            },
            PullEvent::Restored => match state {
                PullState::AbortingMerge => {
                    self.state = PullState::MergeAborted;
                    self.conflicts = Vec::new();
                    assert(self.conflicts.deep_view() =~= Seq::<ConflictModel>::empty());
                },
                _ => {
                    self.break_unexpected();
                },
            },
        }
    }

    /// Aborts the merge that a pull has left open: the store is asked to put
    /// back the head the pull began from. Refused unless the store has a
    /// merge in progress and this pull ended in a merge that met conflicts.
    pub fn abort_merge(&mut self, operation: OperationState) -> (r: Result<PullCommand, String>)
        requires
            old(self).deep_view().wf(),
        ensures
            final(self).deep_view().wf(),
            operation == OperationState::Merge && old(self).deep_view().merge_open() ==> {
                &&& r is Ok
                &&& r->Ok_0.deep_view() == (PullCommandModel::AbortMerge {
                    head: old(self).original_head@,
                })
                &&& final(self).deep_view() == old(self).deep_view().merge_abort_requested()
            },
            !(operation == OperationState::Merge && old(self).deep_view().merge_open()) ==> {
                &&& r is Err
                &&& r->Err_0@ == no_merge_message()
                &&& final(self).deep_view() == old(self).deep_view()
            },
    {
        assert(self.conflicts.deep_view().len() == self.conflicts@.len());
        let in_merge = match operation {
            OperationState::Merge => true,
            _ => false,
        };
        let open = match (self.state, self.route) {
            (PullState::Done, Route::Merge) => self.conflicts.len() > 0,
            _ => false,
        };
        if in_merge && open {
            self.state = PullState::AbortingMerge;
            Ok(PullCommand::AbortMerge { head: self.original_head.clone() })
        } else {
            Err(String::from_str("No merge in progress"))
        }
    }

    /// What the pull reports once it is over.
    pub fn outcome(&self) -> (r: Option<Result<PullResult, String>>)
        ensures
            same_outcome(r, self.deep_view().outcome()),
    {
        match self.state {
            PullState::MergeAborted => {
                let none: Vec<ConflictFile> = Vec::new();
                assert(none.deep_view() =~= Seq::<ConflictModel>::empty());
                Some(
                    Ok(
                        PullResult {
                            success: true,
                            conflicts: none,
                            commits_received: 0,
                            message: String::from_str(
                                "Merge aborted. Repository returned to its state before the pull.",
                            ),
                        },
                    ),
                )
            },
            PullState::Failed => match &self.failure {
                Some(why) => Some(Err(why.clone())),
                None => Some(
                    Err(
                        String::from_str(
                            "Internal error: the repository reported a step that the pull did not ask for",
                        ),
                    ),
                ),
            },
            PullState::Done => {
                let count: usize = self.conflicts.len();
                assert(self.conflicts.deep_view().len() == self.conflicts@.len());
                if count > 0 {
                    let message = match self.route {
                        Route::Rebase => {
                            let mut m = String::from_str("Rebase failed with ");
                            append_decimal(&mut m, count);
                            m.append(" conflict(s). The rebase has been aborted.");
                            m
                        },
                        _ => {
                            let mut m = String::from_str("Merge has ");
                            append_decimal(&mut m, count);
                            m.append(" conflict(s). Please resolve them manually.");
                            m
                        },
                    };
                    Some(
                        Ok(
                            PullResult {
                                success: false,
                                conflicts: copy_conflicts(&self.conflicts),
                                commits_received: 0,
                                message,
                            },
                        ),
                    )
                } else {
                    let none: Vec<ConflictFile> = Vec::new();
                    assert(none.deep_view() =~= Seq::<ConflictModel>::empty());
                    let received: usize = match self.route {
                        Route::Rebase => self.applied,
                        Route::FastForward | Route::Merge => 1,
                        _ => 0,
                    };
                    let message = match self.route {
                        Route::Rebase => {
                            let mut m = String::from_str("Rebase completed successfully (");
                            append_decimal(&mut m, self.applied);
                            m.append(" commits applied)");
                            m
                        },
                        Route::FastForward => String::from_str("Fast-forward merge completed"),
                        Route::Merge => String::from_str("Merge completed successfully"),
                        _ => String::from_str("Already up to date"),
                    };
                    Some(
                        Ok(
                            PullResult {
                                success: true,
                                conflicts: none,
                                commits_received: received,
                                message,
                            },
                        ),
                    )
                }
            },
            _ => None,
        }
    }
}

impl PullSession {
    /// Whether the route of the pull fits its state: what `advance` asks of
    /// a pull.
    pub fn is_well_formed(&self) -> (r: bool)
        ensures
            r == self.deep_view().wf(),
    {
        match self.state {
            PullState::Fetching | PullState::Analyzing => self.route == Route::Undecided,
            PullState::FastForwarding => self.route == Route::FastForward,
            PullState::Merging | PullState::CommittingMerge | PullState::CleaningUp
            | PullState::AbortingMerge | PullState::MergeAborted => self.route == Route::Merge,
            PullState::BeginningRebase | PullState::Replaying | PullState::AbortingRebase
            | PullState::FinishingRebase => self.route == Route::Rebase,
            PullState::Done => self.route != Route::Undecided,
            PullState::Failed => true,
        }
    }
}

/// The pull after a run: after each of the store's answers in turn.
pub open spec fn after_run(s: PullModel, events: Seq<PullEventModel>) -> PullModel
    decreases events.len(),
{
    if events.len() == 0 {
        s
    } else {
        after_run(s, events.drop_last()).next(events.last())
    }
}

/// Some command that the pull has asked of the store during a run, the one
/// it is asking at the end of it included, was to write a commit.
pub open spec fn wrote_commit(s: PullModel, events: Seq<PullEventModel>) -> bool {
    exists|n: int|
        0 <= n <= events.len() && (#[trigger] after_run(
            s,
            events.subrange(0, n),
        )).command().writes_commit()
}

/// During a run the route of a pull, once decided, stays what it is.
pub proof fn lemma_route_is_kept(s: PullModel, events: Seq<PullEventModel>, n: int)
    requires
        s.wf(),
        0 <= n <= events.len(),
    ensures
        after_run(s, events).wf(),
        after_run(s, events.subrange(0, n)).wf(),
        after_run(s, events.subrange(0, n)).route != Route::Undecided ==> after_run(s, events).route
            == after_run(s, events.subrange(0, n)).route,
    decreases events.len(),
{
    if n == events.len() {
        assert(events.subrange(0, n) =~= events);
        lemma_run_is_well_formed(s, events);
    } else {
        let shorter = events.drop_last();
        assert(shorter.subrange(0, n) =~= events.subrange(0, n));
        lemma_route_is_kept(s, shorter, n);
        lemma_pull_step(after_run(s, shorter), events.last());
    }
}

/// Whatever the store answers, the route of a pull keeps fitting its state.
pub proof fn lemma_run_is_well_formed(s: PullModel, events: Seq<PullEventModel>)
    requires
        s.wf(),
    ensures
        after_run(s, events).wf(),
    decreases events.len(),
{
    if events.len() > 0 {
        lemma_run_is_well_formed(s, events.drop_last());
        lemma_pull_step(after_run(s, events.drop_last()), events.last());
    }
}

/// A pull that turns out to be a fast-forward has, from its first step to
/// its last, never asked the store to write a commit; and what it asks while
/// it fast-forwards is to point the branch at the tip that was fetched.
pub proof fn lemma_fast_forward_pull_writes_no_commit(
    remote: Seq<char>,
    branch: Seq<char>,
    strategy: PullStrategy,
    head: Seq<char>,
    events: Seq<PullEventModel>,
)
    requires
        after_run(initial_pull(remote, branch, strategy, head), events).route
            == Route::FastForward,
    ensures
        !wrote_commit(initial_pull(remote, branch, strategy, head), events),
        after_run(initial_pull(remote, branch, strategy, head), events).state
            == PullState::FastForwarding ==> after_run(
            initial_pull(remote, branch, strategy, head),
            events,
        ).command() == (PullCommandModel::FastForward {
            refname: branch_refname(branch),
            target: after_run(initial_pull(remote, branch, strategy, head), events).tip,
        }),
{
    let start = initial_pull(remote, branch, strategy, head);
    lemma_run_is_well_formed(start, events);
    lemma_run_keeps_branch(start, events);
    assert forall|n: int| 0 <= n <= events.len() implies !(#[trigger] after_run(
        start,
        events.subrange(0, n),
    )).command().writes_commit() by {
        lemma_route_is_kept(start, events, n);
    }
}

/// Whatever the store answers, a pull keeps its remote, branch, strategy
/// and recorded head.
pub proof fn lemma_run_keeps_branch(s: PullModel, events: Seq<PullEventModel>)
    requires
        s.wf(),
    ensures
        after_run(s, events).original_head == s.original_head,
        after_run(s, events).remote == s.remote,
        after_run(s, events).branch == s.branch,
        after_run(s, events).strategy == s.strategy,
    decreases events.len(),
{
    if events.len() > 0 {
        lemma_run_keeps_branch(s, events.drop_last());
        lemma_run_is_well_formed(s, events.drop_last());
        lemma_pull_step(after_run(s, events.drop_last()), events.last());
    }
}

/// A merge that a pull has left open can be aborted, and aborting it asks
/// the store to put back exactly the head that the pull began from; once the
/// store has done so, the pull reports success with no conflict left.
pub proof fn lemma_open_merge_aborts_to_original_head(
    remote: Seq<char>,
    branch: Seq<char>,
    strategy: PullStrategy,
    head: Seq<char>,
    events: Seq<PullEventModel>,
)
    requires
        after_run(initial_pull(remote, branch, strategy, head), events).merge_open(),
    ensures
        after_run(
            initial_pull(remote, branch, strategy, head),
            events,
        ).merge_abort_requested().command() == (PullCommandModel::AbortMerge { head }),
        after_run(initial_pull(remote, branch, strategy, head), events).merge_abort_requested().next(
            PullEventModel::Restored,
        ).outcome() == Some(
            Ok::<PullResultModel, Seq<char>>(
                PullResultModel {
                    success: true,
                    conflicts: Seq::empty(),
                    commits_received: 0,
                    message: merge_aborted_message(),
                },
            ),
        ),
{
    lemma_run_keeps_branch(initial_pull(remote, branch, strategy, head), events);
}

} // verus!
