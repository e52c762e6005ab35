//! The interactive rebase engine: a resumable session that walks a validated
//! plan one instruction at a time. The session decides; the store performs.
//! After each command the store hands back an event, and the session moves.

use crate::conflict::{copy_conflicts, ConflictFile, ConflictModel};
use crate::rebase_plan::{count_kind, count_melds, count_starters, kind_at, lemma_counts_partition,
    lemma_valid_plan_shape, parse_actions, plan_errors, invalid_plan_message, valid_plan,
    validate_rebase_order, InstructionModel, RebaseAction, RebaseInstruction, misplaced};
use crate::oid::{full_id, names_object, parse_object_id};
use crate::store::OperationState;
use crate::text::{append_decimal, decimal, join, trim, trimmed};
use vstd::prelude::*;

verus! {

/// One instruction of a validated plan.
#[derive(Clone, Debug)]
pub struct Step {
    pub hash: String,
    pub action: RebaseAction,
    pub new_message: Option<String>,
}

/// What a `Step` holds, as mathematical values.
pub struct StepModel {
    pub hash: Seq<char>,
    pub action: RebaseAction,
    pub new_message: Option<Seq<char>>,
}

impl DeepView for Step {
    type V = StepModel;

    open spec fn deep_view(&self) -> StepModel {
        StepModel {
            hash: self.hash@,
            action: self.action,
            new_message: self.new_message.deep_view(),
        }
    }
}

/// Where a session stands.
#[derive(Clone, Copy, Debug, PartialEq, Eq, Structural)]
pub enum SessionState {
    /// Instructions are being applied.
    Running,
    /// The instruction under the cursor left conflicts in the index.
    Conflict,
    /// An `edit` instruction was applied; the caller amends, then resumes.
    StoppedForEdit,
    /// The store is asked to put the pre-rebase state back.
    Aborting,
    /// Every instruction was applied and the branch was moved.
    Completed,
    /// The pre-rebase state was put back and the session discarded.
    Aborted,
}

impl SessionState {
    /// The name under which a state is reported.
    pub open spec fn label(self) -> Seq<char> {
        match self {
            SessionState::Running => "in_progress"@,
            SessionState::Conflict => "conflict"@,
            SessionState::StoppedForEdit => "stopped_for_edit"@,
            SessionState::Aborting => "aborting"@,
            SessionState::Completed => "completed"@,
            SessionState::Aborted => "aborted"@,
        }
    }

    /// The name under which a state is reported.
    pub fn as_str(self) -> (s: &'static str)
        ensures
            s@ == self.label(),
    {
        match self {
            SessionState::Running => "in_progress",
            SessionState::Conflict => "conflict",
            SessionState::StoppedForEdit => "stopped_for_edit",
            SessionState::Aborting => "aborting",
            SessionState::Completed => "completed",
            SessionState::Aborted => "aborted",
        }
    }

    /// Whether the session is still alive: neither completed nor aborted.
    pub open spec fn live(self) -> bool {
        self != SessionState::Completed && self != SessionState::Aborted
    }
}

/// What the session asks of the store.
#[derive(Clone, Debug)]
pub enum StoreCommand {
    /// Replay the changes of the commit `hash` onto the index and the
    /// working tree.
    Apply { hash: String },
    /// Write the index as a new commit on top of the rewritten history.
    Commit { message: String },
    /// Point the branch the session started from at the last commit written
    /// and clear the rebase bookkeeping.
    Finish,
    /// Put HEAD and the working tree back to the commit `head` and clear the
    /// rebase bookkeeping.
    Restore { head: String },
    /// Nothing: the session waits for the caller, or is over.
    Wait,
}

/// What a `StoreCommand` holds, as mathematical values.
pub enum CommandModel {
    Apply { hash: Seq<char> },
    Commit { message: Seq<char> },
    Finish,
    Restore { head: Seq<char> },
    Wait,
}

impl DeepView for StoreCommand {
    type V = CommandModel;

    open spec fn deep_view(&self) -> CommandModel {
        match self {
            StoreCommand::Apply { hash } => CommandModel::Apply { hash: hash@ },
            StoreCommand::Commit { message } => CommandModel::Commit { message: message@ },
            StoreCommand::Finish => CommandModel::Finish,
            StoreCommand::Restore { head } => CommandModel::Restore { head: head@ },
            StoreCommand::Wait => CommandModel::Wait,
        }
    }
}

/// What the store reports back after a command.
#[derive(Clone, Debug)]
pub enum StoreEvent {
    /// The changes went in cleanly; `message` is the message of the commit
    /// they came from.
    Applied { message: String },
    /// The changes left conflicts in the index.
    Conflicted { conflicts: Vec<ConflictFile> },
    /// The commit was written.
    Committed,
    /// The branch was moved and the bookkeeping cleared.
    Finished,
    /// The pre-rebase state was put back.
    Restored,
    /// The command failed for a reason other than conflicts.
    Failed { reason: String },
}

/// What a `StoreEvent` holds, as mathematical values.
pub enum EventModel {
    Applied { message: Seq<char> },
    Conflicted { conflicts: Seq<ConflictModel> },
    Committed,
    Finished,
    Restored,
    Failed { reason: Seq<char> },
}

impl DeepView for StoreEvent {
    type V = EventModel;

    open spec fn deep_view(&self) -> EventModel {
        match self {
            StoreEvent::Applied { message } => EventModel::Applied { message: message@ },
            StoreEvent::Conflicted { conflicts } => EventModel::Conflicted {
                conflicts: conflicts.deep_view(),
            },
            StoreEvent::Committed => EventModel::Committed,
            StoreEvent::Finished => EventModel::Finished,
            StoreEvent::Restored => EventModel::Restored,
            StoreEvent::Failed { reason } => EventModel::Failed { reason: reason@ },
        }
    }
}

/// A live rebase: the plan, how far it has come, and what is pending.
#[derive(Clone, Debug)]
pub struct RebaseSession {
    /// The commit onto which the plan is replayed.
    pub base: String,
    /// The commit HEAD pointed at before the rebase began.
    pub original_head: String,
    /// The instructions, in the order they are applied.
    pub steps: Vec<Step>,
    /// The index of the next instruction to apply.
    pub cursor: usize,
    /// Where the session stands.
    pub state: SessionState,
    /// The message of the commit under assembly: changes of a pick, reword
    /// or edit, and of the squashes and fixups that follow it, are in the
    /// index and wait to be written as one commit.
    pub buffer: Option<String>,
    /// How many commits the session has written.
    pub produced: usize,
    /// The conflicts of the instruction under the cursor, in state `Conflict`.
    pub conflicts: Vec<ConflictFile>,
    /// Why the session is being aborted, where a failure caused it.
    pub failure: Option<String>,
}

/// What a `RebaseSession` holds, as mathematical values.
pub struct SessionModel {
    pub base: Seq<char>,
    pub original_head: Seq<char>,
    pub steps: Seq<StepModel>,
    pub cursor: nat,
    pub state: SessionState,
    pub buffer: Option<Seq<char>>,
    pub produced: nat,
    pub conflicts: Seq<ConflictModel>,
    pub failure: Option<Seq<char>>,
}

impl DeepView for RebaseSession {
    type V = SessionModel;

    open spec fn deep_view(&self) -> SessionModel {
        SessionModel {
            base: self.base@,
            original_head: self.original_head@,
            steps: self.steps.deep_view(),
            cursor: self.cursor as nat,
            state: self.state,
            buffer: self.buffer.deep_view(),
            produced: self.produced as nat,
            conflicts: self.conflicts.deep_view(),
            failure: self.failure.deep_view(),
        }
    }
}

/// How many of the first `n` steps begin a commit.
pub open spec fn starters(steps: Seq<StepModel>, n: nat) -> nat
    decreases n,
{
    if n == 0 {
        0
    } else if steps[n - 1].action.starts_commit() {
        starters(steps, (n - 1) as nat) + 1
    } else {
        starters(steps, (n - 1) as nat)
    }
}

/// How many of the first `n` steps have the action `action`.
pub open spec fn steps_with(steps: Seq<StepModel>, action: RebaseAction, n: nat) -> nat
    decreases n,
{
    if n == 0 {
        0
    } else if steps[n - 1].action == action {
        steps_with(steps, action, (n - 1) as nat) + 1
    } else {
        steps_with(steps, action, (n - 1) as nat)
    }
}

/// The first index at or after `from` whose step is not a drop, or the
/// number of steps where only drops are left.
pub open spec fn skip_drops(steps: Seq<StepModel>, from: nat) -> nat
    decreases steps.len() - from,
{
    if from < steps.len() && steps[from as int].action == RebaseAction::Drop {
        skip_drops(steps, from + 1)
    } else {
        from
    }
}

/// The step at `i` has something to fold into, if it folds: the step before
/// it is a pick, reword or edit.
pub open spec fn well_placed(steps: Seq<StepModel>, i: int) -> bool {
    steps[i].action.melds() ==> steps[i - 1].action.starts_commit()
}

/// The steps begin with a pick, and every squash or fixup directly follows
/// a pick, reword or edit.
pub open spec fn steps_valid(steps: Seq<StepModel>) -> bool {
    &&& steps.len() > 0
    &&& steps[0].action == RebaseAction::Pick
    &&& forall|i: int| 1 <= i < steps.len() ==> #[trigger] well_placed(steps, i)
}

/// The message of a commit under assembly once a squashed commit's message
/// is added to it.
pub open spec fn combined(buffer: Option<Seq<char>>, message: Seq<char>) -> Seq<char> {
    match buffer {
        Some(text) => text + "\n\n"@ + message,
        None => message,
    }
}

/// The message under which a reworded commit is written.
pub open spec fn reworded(new_message: Option<Seq<char>>) -> Seq<char> {
    match new_message {
        Some(text) => text,
        None => "Reworded commit"@,
    }
}

impl SessionModel {
    /// What holds of every session, from its start to its end.
    pub open spec fn wf(self) -> bool {
        &&& steps_valid(self.steps)
        &&& self.cursor <= self.steps.len()
        &&& self.steps.len() <= usize::MAX
        &&& self.produced + (if self.buffer is Some {
            1nat
        } else {
            0nat
        }) == starters(self.steps, self.cursor)
        &&& (self.cursor < self.steps.len() && self.steps[self.cursor as int].action.melds()
            ==> self.buffer is Some)
        &&& (self.state == SessionState::Running || self.state == SessionState::Conflict
            || self.state == SessionState::StoppedForEdit) && self.cursor < self.steps.len()
            ==> self.steps[self.cursor as int].action != RebaseAction::Drop
        &&& self.state == SessionState::Conflict ==> self.cursor < self.steps.len()
            && self.conflicts.len() > 0
        &&& self.state == SessionState::Completed ==> self.cursor == self.steps.len()
            && self.buffer is None
    }

    /// The commit under assembly is due: its changes are in the index, and
    /// what comes next begins another commit or ends the plan.
    pub open spec fn commit_due(self) -> bool {
        self.buffer is Some && (self.cursor >= self.steps.len()
            || self.steps[self.cursor as int].action.starts_commit())
    }

    /// What the session asks of the store next.
    pub open spec fn command(self) -> CommandModel {
        match self.state {
            SessionState::Running => if self.commit_due() {
                CommandModel::Commit { message: self.buffer->0 }
            } else if self.cursor >= self.steps.len() {
                CommandModel::Finish
            } else {
                CommandModel::Apply { hash: self.steps[self.cursor as int].hash }
            },
            SessionState::Aborting => CommandModel::Restore { head: self.original_head },
            _ => CommandModel::Wait,
        }
    }

    /// The session once its store has failed, or reported what the session
    /// did not ask for: it is to be aborted, and says why.
    pub open spec fn failed(self, reason: Seq<char>) -> SessionModel {
        SessionModel { state: SessionState::Aborting, failure: Some(reason), ..self }
    }

    /// The session once the changes of the step under the cursor are in.
    pub open spec fn applied(self, message: Seq<char>) -> SessionModel {
        let step = self.steps[self.cursor as int];
        let buffer = match step.action {
            RebaseAction::Pick => Some(message),
            RebaseAction::Edit => Some(message),
            RebaseAction::Reword => Some(reworded(step.new_message)),
            RebaseAction::Squash => Some(combined(self.buffer, message)),
            RebaseAction::Fixup => self.buffer,
            RebaseAction::Drop => self.buffer,
        };
        let state = if step.action == RebaseAction::Edit {
            SessionState::StoppedForEdit
        } else {
            SessionState::Running
        };
        SessionModel { buffer, state, cursor: skip_drops(self.steps, self.cursor + 1), ..self }
    }

    /// The session after the store's answer to its command.
    pub open spec fn next(self, event: EventModel) -> SessionModel {
        match self.state {
            SessionState::Running => match (self.command(), event) {
                (_, EventModel::Failed { reason }) => self.failed(reason),
                (CommandModel::Apply { .. }, EventModel::Applied { message }) => self.applied(
                    message,
                ),
                (CommandModel::Apply { .. }, EventModel::Conflicted { conflicts }) => if conflicts.len()
                    > 0 {
                    SessionModel { state: SessionState::Conflict, conflicts, ..self }
                } else {
                    self.failed(unexpected_event_message())
                },
                (CommandModel::Commit { .. }, EventModel::Committed) => SessionModel {
                    buffer: None,
                    produced: self.produced + 1,
                    ..self
                },
                (CommandModel::Finish, EventModel::Finished) => SessionModel {
                    state: SessionState::Completed,
                    ..self
                },
                _ => self.failed(unexpected_event_message()),
            },
            SessionState::Aborting => match event {
                EventModel::Restored => SessionModel { state: SessionState::Aborted, ..self },
                EventModel::Failed { reason } => SessionModel {
                    state: SessionState::Aborted,
                    failure: Some(abort_failed_message(reason)),
                    ..self
                },
                _ => self,
            },
            _ => self,
        }
    }
}

pub open spec fn unexpected_event_message() -> Seq<char> {
    "Internal error: the repository reported a step that the rebase did not ask for"@
}

pub open spec fn abort_failed_message(reason: Seq<char>) -> Seq<char> {
    "Failed to abort rebase: "@ + reason
}

/// Skipping drops moves forward over drops only, and stops at a step that
/// is no drop or at the end.
pub proof fn lemma_skip_drops(steps: Seq<StepModel>, from: nat)
    requires
        from <= steps.len(),
    ensures
        from <= skip_drops(steps, from) <= steps.len(),
        forall|i: int|
            from <= i < skip_drops(steps, from) ==> (#[trigger] steps[i]).action
                == RebaseAction::Drop,
        skip_drops(steps, from) < steps.len() ==> steps[skip_drops(steps, from) as int].action
            != RebaseAction::Drop,
        starters(steps, skip_drops(steps, from)) == starters(steps, from),
    decreases steps.len() - from,
{
    if from < steps.len() && steps[from as int].action == RebaseAction::Drop {
        lemma_skip_drops(steps, from + 1);
    }
}

/// Applying the step under the cursor keeps what holds of every session.
pub proof fn lemma_applied_keeps_session(s: SessionModel, message: Seq<char>)
    requires
        s.wf(),
        s.state == SessionState::Running,
        s.cursor < s.steps.len(),
        !s.commit_due(),
    ensures
        s.applied(message).wf(),
{
    let t = s.applied(message);
    let c = s.cursor;
    let step = s.steps[c as int];
    lemma_skip_drops(s.steps, c + 1);
    let d = skip_drops(s.steps, c + 1);
    assert(t.cursor == d);
    assert(starters(s.steps, c + 1) == starters(s.steps, c) + (if step.action.starts_commit() {
        1nat
    } else {
        0nat
    }));
    if d < s.steps.len() && s.steps[d as int].action.melds() {
        assert(well_placed(s.steps, d as int));
        if d > c + 1 {
            assert(s.steps[d - 1].action == RebaseAction::Drop);
        }
    }
}

/// Every step of a session: the plan, its base and the head it began from
/// stay as they are, and what holds of every session holds again.
pub proof fn lemma_next_keeps_session(s: SessionModel, event: EventModel)
    requires
        s.wf(),
    ensures
        s.next(event).wf(),
        s.next(event).steps == s.steps,
        s.next(event).base == s.base,
        s.next(event).original_head == s.original_head,
{
    if s.state == SessionState::Running {
        if event is Applied && s.command() is Apply {
            lemma_applied_keeps_session(s, event->message);
        }
    }
}

/// A completed session has written exactly one commit for each pick, reword
/// and edit of its plan.
pub proof fn lemma_completed_count(s: SessionModel)
    requires
        s.wf(),
        s.state == SessionState::Completed,
    ensures
        s.produced == starters(s.steps, s.steps.len()),
{
}

/// Each step is counted under exactly one action: the commits begun are the
/// steps neither dropped nor folded.
pub proof fn lemma_starters_partition(steps: Seq<StepModel>, n: nat)
    requires
        n <= steps.len(),
    ensures
        starters(steps, n) == n - steps_with(steps, RebaseAction::Drop, n) - steps_with(
            steps,
            RebaseAction::Squash,
            n,
        ) - steps_with(steps, RebaseAction::Fixup, n),
    decreases n,
{
    if n > 0 {
        lemma_starters_partition(steps, (n - 1) as nat);
    }
}

/// A completed rebase leaves as many commits as its plan has instructions,
/// less the dropped and the folded ones.
pub proof fn lemma_completed_history_length(s: SessionModel)
    requires
        s.wf(),
        s.state == SessionState::Completed,
    ensures
        s.produced == s.steps.len() - steps_with(s.steps, RebaseAction::Drop, s.steps.len())
            - steps_with(s.steps, RebaseAction::Squash, s.steps.len()) - steps_with(
            s.steps,
            RebaseAction::Fixup,
            s.steps.len(),
        ),
{
    lemma_starters_partition(s.steps, s.steps.len());
}

/// A session that is being aborted asks the store for exactly the head it
/// began from, whatever happened in between.
pub proof fn lemma_abort_restores_original_head(s: SessionModel)
    requires
        s.state == SessionState::Aborting,
    ensures
        s.command() == (CommandModel::Restore { head: s.original_head }),
{
}

/// A copy of an optional text.
pub fn copy_text(text: &Option<String>) -> (copy: Option<String>)
    ensures
        copy.deep_view() == text.deep_view(),
{
    match text {
        Some(t) => Some(t.clone()),
        None => None,
    }
}

impl RebaseSession {
    /// What holds of every session, from its start to its end.
    pub open spec fn wf(&self) -> bool {
        self.deep_view().wf()
    }

    /// What the session asks of the store next.
    pub fn command(&self) -> (c: StoreCommand)
        ensures
            c.deep_view() == self.deep_view().command(),
    {
        assert(self.steps.deep_view().len() == self.steps@.len());
        match self.state {
            SessionState::Running => {
                let at_end = self.cursor >= self.steps.len();
                if !at_end {
                    assert(self.steps.deep_view()[self.cursor as int]
                        == self.steps@[self.cursor as int].deep_view());
                }
                let due = match &self.buffer {
                    Some(_) => at_end || self.steps[self.cursor].action.is_starter(),
                    None => false,
                };
                if due {
                    match &self.buffer {
                        Some(message) => StoreCommand::Commit { message: message.clone() },
                        None => StoreCommand::Wait,
                    }
                } else if at_end {
                    StoreCommand::Finish
                } else {
                    StoreCommand::Apply { hash: self.steps[self.cursor].hash.clone() }
                }
            },
            SessionState::Aborting => StoreCommand::Restore { head: self.original_head.clone() },
            _ => StoreCommand::Wait,
        }
    }

    fn fail(&mut self, reason: String)
        ensures
            final(self).deep_view() == old(self).deep_view().failed(reason@),
    {
        self.state = SessionState::Aborting;
        self.failure = Some(reason);
    }

    fn apply_step(&mut self, message: String)
        requires
            old(self).wf(),
            old(self).state == SessionState::Running,
            old(self).cursor < old(self).steps@.len(),
            !old(self).deep_view().commit_due(),
        ensures
            final(self).deep_view() == old(self).deep_view().applied(message@),
    {
        let ghost before = self.deep_view();
        let ghost steps = self.steps.deep_view();
        assert(steps.len() == self.steps@.len());
        assert(steps[self.cursor as int] == self.steps@[self.cursor as int].deep_view());
        let action = self.steps[self.cursor].action;
        match action {
            RebaseAction::Pick | RebaseAction::Edit => {
                self.buffer = Some(message);
            },
            RebaseAction::Reword => {
                let text = match &self.steps[self.cursor].new_message {
                    Some(t) => t.clone(),
                    None => String::from_str("Reworded commit"),
                };
                self.buffer = Some(text);
            },
            RebaseAction::Squash => {
                let text = match &self.buffer {
                    Some(sofar) => {
                        let mut t = sofar.clone();
                        t.append("\n\n");
                        t.append(message.as_str());
                        t
                    },
                    None => message,
                };
                self.buffer = Some(text);
            },
            RebaseAction::Fixup | RebaseAction::Drop => {},
        }
        if action == RebaseAction::Edit {
            self.state = SessionState::StoppedForEdit;
        }
        let mut next: usize = self.cursor + 1;
        while next < self.steps.len() && self.steps[next].action == RebaseAction::Drop
            invariant
                before.cursor < next <= self.steps@.len(),
                steps == self.steps.deep_view(),
                steps.len() == self.steps@.len(),
                skip_drops(steps, next as nat) == skip_drops(steps, before.cursor + 1),
            decreases self.steps@.len() - next,
        {
            assert(steps[next as int] == self.steps@[next as int].deep_view());
            next += 1;
        }
        proof {
            if next < self.steps@.len() {
                assert(steps[next as int] == self.steps@[next as int].deep_view());
            }
        }
        self.cursor = next;
    }

    /// Moves the session by the store's answer to its last command.
    pub fn advance(&mut self, event: StoreEvent)
        requires
            old(self).wf(),
        ensures
            final(self).deep_view() == old(self).deep_view().next(event.deep_view()),
            final(self).wf(),
    {
        proof {
            lemma_next_keeps_session(self.deep_view(), event.deep_view());
        }
        match self.state {
            SessionState::Running => {
                let command = self.command();
                match event {
                    StoreEvent::Failed { reason } => {
                        self.fail(reason);
                    },
                    StoreEvent::Applied { message } => {
                        match command {
                            StoreCommand::Apply { .. } => {
                                self.apply_step(message);
                            },
                            _ => {
                                self.fail(unexpected_event());
                            },
                        }
                    },
                    StoreEvent::Conflicted { conflicts } => {
                        match command {
                            StoreCommand::Apply { .. } => {
                                if conflicts.len() > 0 {
                                    self.state = SessionState::Conflict;
                                    self.conflicts = conflicts;
                                } else {
                                    self.fail(unexpected_event());
                                }
                            },
                            _ => {
                                self.fail(unexpected_event());
                            },
                        }
                    },
                    StoreEvent::Committed => {
                        match command {
                            StoreCommand::Commit { .. } => {
                                proof {
                                    lemma_starters_bound(self.steps.deep_view(), self.cursor as nat);
                                }
                                self.buffer = None;
                                self.produced = self.produced + 1;
                            },
                            _ => {
                                self.fail(unexpected_event());
                            },
                        }
                    },
                    StoreEvent::Finished => {
                        match command {
                            StoreCommand::Finish => {
                                self.state = SessionState::Completed;
                            },
                            _ => {
                                self.fail(unexpected_event());
                            },
                        }
                    },
                    StoreEvent::Restored => {
                        self.fail(unexpected_event());
                    },
                }
            },
            SessionState::Aborting => {
                match event {
                    StoreEvent::Restored => {
                        self.state = SessionState::Aborted;
                    },
                    StoreEvent::Failed { reason } => {
                        let mut text = String::from_str("Failed to abort rebase: ");
                        text.append(reason.as_str());
                        self.state = SessionState::Aborted;
                        self.failure = Some(text);
                    },
                    _ => {},
                }
            },
            _ => {},
        }
    }
}

fn unexpected_event() -> (m: String)
    ensures
        m@ == unexpected_event_message(),
{
    String::from_str(
        "Internal error: the repository reported a step that the rebase did not ask for",
    )
}

/// No more commits are begun among the first `n` steps than there are steps.
pub proof fn lemma_starters_bound(steps: Seq<StepModel>, n: nat)
    ensures
        starters(steps, n) <= n,
    decreases n,
{
    if n > 0 {
        lemma_starters_bound(steps, (n - 1) as nat);
    }
}

/// What a rebase command reports to the caller.
#[derive(Clone, Debug)]
pub struct RebaseResult {
    pub success: bool,
    /// Where the rebase stands. In a report of conflicts this is the
    /// one-based position of the instruction that met them; otherwise the
    /// number of instructions gone through.
    pub current_commit_index: usize,
    pub total_commits: usize,
    pub conflicts: Vec<ConflictFile>,
    pub message: String,
    pub rebase_state: SessionState,
}

/// What a `RebaseResult` holds, as mathematical values.
pub struct ResultModel {
    pub success: bool,
    pub current_commit_index: nat,
    pub total_commits: nat,
    pub conflicts: Seq<ConflictModel>,
    pub message: Seq<char>,
    pub rebase_state: SessionState,
}

impl DeepView for RebaseResult {
    type V = ResultModel;

    open spec fn deep_view(&self) -> ResultModel {
        ResultModel {
            success: self.success,
            current_commit_index: self.current_commit_index as nat,
            total_commits: self.total_commits as nat,
            conflicts: self.conflicts.deep_view(),
            message: self.message@,
            rebase_state: self.rebase_state,
        }
    }
}

pub open spec fn conflict_message(position: nat, total: nat) -> Seq<char> {
    "Conflicts detected at commit "@ + decimal(position) + "/"@ + decimal(total)
        + ". Resolve conflicts and continue."@
}

pub open spec fn edit_stop_message() -> Seq<char> {
    "Stopped for editing. Amend the commit, then continue the rebase."@
}

pub open spec fn completed_message(produced: nat) -> Seq<char> {
    "Interactive rebase completed successfully! "@ + decimal(produced) + " commits applied."@
}

pub open spec fn aborted_message() -> Seq<char> {
    "Rebase aborted successfully. Repository returned to original state."@
}

pub open spec fn apply_failed_message(reason: Seq<char>) -> Seq<char> {
    "Failed to apply commit: "@ + reason
}

pub open spec fn unresolved_message() -> Seq<char> {
    "Cannot continue: conflicts still exist. Please resolve all conflicts first."@
}

impl SessionModel {
    /// What the session reports once it comes to rest: nothing while it
    /// runs or is being aborted; the conflicts and the one-based position of
    /// the instruction that met them; the pause after an edit; completion
    /// with the number of commits written; or, once aborted, the failure
    /// that caused it, if one did.
    pub open spec fn report(self) -> Option<Result<ResultModel, Seq<char>>> {
        match self.state {
            SessionState::Running | SessionState::Aborting => None,
            SessionState::Conflict => Some(
                Ok(
                    ResultModel {
                        success: false,
                        current_commit_index: self.cursor + 1,
                        total_commits: self.steps.len(),
                        conflicts: self.conflicts,
                        message: conflict_message(self.cursor + 1, self.steps.len()),
                        rebase_state: SessionState::Conflict,
                    },
                ),
            ),
            SessionState::StoppedForEdit => Some(
                Ok(
                    ResultModel {
                        success: true,
                        current_commit_index: self.cursor,
                        total_commits: self.steps.len(),
                        conflicts: Seq::empty(),
                        message: edit_stop_message(),
                        rebase_state: SessionState::StoppedForEdit,
                    },
                ),
            ),
            SessionState::Completed => Some(
                Ok(
                    ResultModel {
                        success: true,
                        current_commit_index: self.steps.len(),
                        total_commits: self.steps.len(),
                        conflicts: Seq::empty(),
                        message: completed_message(self.produced),
                        rebase_state: SessionState::Completed,
                    },
                ),
            ),
            SessionState::Aborted => match self.failure {
                Some(reason) => Some(Err(apply_failed_message(reason))),
                None => Some(
                    Ok(
                        ResultModel {
                            success: true,
                            current_commit_index: self.cursor,
                            total_commits: self.steps.len(),
                            conflicts: Seq::empty(),
                            message: aborted_message(),
                            rebase_state: SessionState::Aborted,
                        },
                    ),
                ),
            },
        }
    }

    /// The session is paused and waits for the caller.
    pub open spec fn paused(self) -> bool {
        self.state == SessionState::Conflict || self.state == SessionState::StoppedForEdit
    }

    /// The session once the caller resumes it: it runs again from the same
    /// cursor.
    pub open spec fn resumed(self) -> SessionModel {
        SessionModel { state: SessionState::Running, conflicts: Seq::empty(), ..self }
    }

    /// The session once the caller asks to abort it.
    pub open spec fn abort_requested(self) -> SessionModel {
        SessionModel { state: SessionState::Aborting, ..self }
    }
}

/// The deep view of an outcome matches a model outcome.
pub open spec fn same_report(
    got: Option<Result<RebaseResult, String>>,
    want: Option<Result<ResultModel, Seq<char>>>,
) -> bool {
    match (got, want) {
        (None, None) => true,
        (Some(Ok(a)), Some(Ok(b))) => a.deep_view() == b,
        (Some(Err(a)), Some(Err(b))) => a@ == b,
        _ => false,
    }
}

impl RebaseSession {
    /// What the session reports to the caller once it has come to rest.
    pub fn report(&self) -> (r: Option<Result<RebaseResult, String>>)
        requires
            self.wf(),
        ensures
            same_report(r, self.deep_view().report()),
    {
        let total: usize = self.steps.len();
        assert(self.steps.deep_view().len() == self.steps@.len());
        let none: Vec<ConflictFile> = Vec::new();
        assert(none.deep_view() =~= Seq::<ConflictModel>::empty());
        match self.state {
            SessionState::Running | SessionState::Aborting => None,
            SessionState::Conflict => {
                let mut message = String::from_str("Conflicts detected at commit ");
                append_decimal(&mut message, self.cursor + 1);
                message.append("/");
                append_decimal(&mut message, total);
                message.append(". Resolve conflicts and continue.");
                Some(
                    Ok(
                        RebaseResult {
                            success: false,
                            current_commit_index: self.cursor + 1,
                            total_commits: total,
                            conflicts: copy_conflicts(&self.conflicts),
                            message,
                            rebase_state: SessionState::Conflict,
                        },
                    ),
                )
            },
            SessionState::StoppedForEdit => Some(
                Ok(
                    RebaseResult {
                        success: true,
                        current_commit_index: self.cursor,
                        total_commits: total,
                        conflicts: none,
                        message: String::from_str(
                            "Stopped for editing. Amend the commit, then continue the rebase.",
                        ),
                        rebase_state: SessionState::StoppedForEdit,
                    },
                ),
            ),
            SessionState::Completed => {
                let mut message = String::from_str("Interactive rebase completed successfully! ");
                append_decimal(&mut message, self.produced);
                message.append(" commits applied.");
                Some(
                    Ok(
                        RebaseResult {
                            success: true,
                            current_commit_index: total,
                            total_commits: total,
                            conflicts: none,
                            message,
                            rebase_state: SessionState::Completed,
                        },
                    ),
                )
            },
            SessionState::Aborted => match &self.failure {
                Some(reason) => {
                    let mut message = String::from_str("Failed to apply commit: ");
                    message.append(reason.as_str());
                    Some(Err(message))
                },
                None => Some(
                    Ok(
                        RebaseResult {
                            success: true,
                            current_commit_index: self.cursor,
                            total_commits: total,
                            conflicts: none,
                            message: String::from_str(
                                "Rebase aborted successfully. Repository returned to original state.",
                            ),
                            rebase_state: SessionState::Aborted,
                        },
                    ),
                ),
            },
        }
    }
}

/// What the store says before a rebase may begin.
#[derive(Clone, Debug)]
pub struct StartFacts {
    /// The operation the store has in progress, if any.
    pub operation: OperationState,
    /// Whether the working directory holds uncommitted changes.
    pub uncommitted: bool,
    /// The commit that HEAD points at.
    pub head: String,
    /// Whether the base commit exists in the store.
    pub base_found: bool,
    /// The hashes of the plan that the store could not resolve to a commit.
    pub unresolved: Vec<String>,
}

pub open spec fn busy_message() -> Seq<char> {
    "Another operation is already in progress. Finish or abort it first."@
}

pub open spec fn dirty_rebase_message() -> Seq<char> {
    "Working directory has uncommitted changes. Commit or stash them before rebasing."@
}

pub open spec fn invalid_base_message(base: Seq<char>) -> Seq<char> {
    "Invalid base commit hash: "@ + base
}

pub open spec fn missing_base_message(base: Seq<char>) -> Seq<char> {
    "Failed to find base commit: "@ + base
}

/// Why a rebase may not begin, if it may not: a plan that breaks a rule (a
/// commit that does not resolve is one), a base that is no object id, an
/// operation already in progress, uncommitted changes, a base that does not
/// exist. The first of these that holds is the reason given.
pub open spec fn start_refusal(
    operation: OperationState,
    uncommitted: bool,
    base_found: bool,
    unresolved: Seq<Seq<char>>,
    base: Seq<char>,
    plan: Seq<InstructionModel>,
) -> Option<Seq<char>> {
    if !valid_plan(plan, unresolved) {
        Some(invalid_plan_message(plan_errors(plan, unresolved)))
    } else if !names_object(base) {
        Some(invalid_base_message(base))
    } else if operation != OperationState::Clean {
        Some(busy_message())
    } else if uncommitted {
        Some(dirty_rebase_message())
    } else if !base_found {
        Some(missing_base_message(base))
    } else {
        None
    }
}

/// The steps that a plan stands for, where every action word is known.
pub open spec fn steps_of(plan: Seq<InstructionModel>) -> Seq<StepModel> {
    Seq::new(
        plan.len(),
        |i: int|
            StepModel {
                hash: plan[i].hash,
                action: kind_at(plan, i)->0,
                new_message: plan[i].new_message,
            },
    )
}

/// The session at its start: nothing applied, nothing written.
pub open spec fn initial_session(base: Seq<char>, head: Seq<char>, plan: Seq<InstructionModel>)
    -> SessionModel {
    SessionModel {
        base,
        original_head: head,
        steps: steps_of(plan),
        cursor: 0,
        state: SessionState::Running,
        buffer: None,
        produced: 0,
        conflicts: Seq::empty(),
        failure: None,
    }
}

/// The steps of a plan that breaks no rule begin with a pick, and every
/// squash or fixup among them directly follows a pick, reword or edit.
pub proof fn lemma_valid_plan_gives_valid_steps(
    plan: Seq<InstructionModel>,
    unresolved: Seq<Seq<char>>,
)
    requires
        valid_plan(plan, unresolved),
    ensures
        steps_valid(steps_of(plan)),
{
    lemma_valid_plan_shape(plan, unresolved);
    let steps = steps_of(plan);
    assert forall|i: int| 1 <= i < steps.len() implies #[trigger] well_placed(steps, i) by {
        assert(!misplaced(plan, i));
        assert(kind_at(plan, i) is Some);
        assert(kind_at(plan, i - 1) is Some);
    }
}

/// The steps of a plan count each action as the plan does.
pub proof fn lemma_steps_count_as_plan(plan: Seq<InstructionModel>, action: RebaseAction, n: nat)
    requires
        n <= plan.len(),
        forall|i: int| 0 <= i < plan.len() ==> (#[trigger] kind_at(plan, i)) is Some,
    ensures
        steps_with(steps_of(plan), action, n) == count_kind(plan, action, n),
    decreases n,
{
    if n > 0 {
        lemma_steps_count_as_plan(plan, action, (n - 1) as nat);
        assert(kind_at(plan, n - 1) is Some);
    }
}

/// A rebase that ran a valid plan to completion has written as many commits
/// as the plan has instructions, less its drops, squashes and fixups.
pub proof fn lemma_completed_rebase_length(
    s: SessionModel,
    plan: Seq<InstructionModel>,
    unresolved: Seq<Seq<char>>,
)
    requires
        valid_plan(plan, unresolved),
        s.wf(),
        s.steps == steps_of(plan),
        s.state == SessionState::Completed,
    ensures
        s.produced == plan.len() - count_kind(plan, RebaseAction::Drop, plan.len()) - count_melds(
            plan,
            plan.len(),
        ),
        s.produced == count_starters(plan, plan.len()),
{
    lemma_valid_plan_shape(plan, unresolved);
    lemma_completed_history_length(s);
    lemma_steps_count_as_plan(plan, RebaseAction::Drop, plan.len());
    lemma_steps_count_as_plan(plan, RebaseAction::Squash, plan.len());
    lemma_steps_count_as_plan(plan, RebaseAction::Fixup, plan.len());
    lemma_counts_partition(plan, plan.len());
}

fn build_steps(instructions: &Vec<RebaseInstruction>) -> (steps: Vec<Step>)
    requires
        forall|i: int|
            0 <= i < instructions@.len() ==> (#[trigger] kind_at(instructions.deep_view(), i))
                is Some,
    ensures
        steps.deep_view() == steps_of(instructions.deep_view()),
{
    let ghost plan = instructions.deep_view();
    let kinds = parse_actions(instructions);
    let mut steps: Vec<Step> = Vec::new();
    let mut i: usize = 0;
    while i < instructions.len()
        invariant
            i <= instructions@.len(),
            plan == instructions.deep_view(),
            kinds@.len() == instructions@.len(),
            forall|j: int| 0 <= j < kinds@.len() ==> kinds@[j] == #[trigger] kind_at(plan, j),
            forall|j: int| 0 <= j < instructions@.len() ==> (#[trigger] kind_at(plan, j)) is Some,
            steps@.len() == i,
            forall|j: int| 0 <= j < i ==> (#[trigger] steps@[j]).deep_view() == steps_of(plan)[j],
        decreases instructions@.len() - i,
    {
        assert(plan[i as int] == instructions@[i as int].deep_view());
        assert(kinds@[i as int] == kind_at(plan, i as int));
        match kinds[i] {
            Some(action) => {
                steps.push(
                    Step {
                        hash: instructions[i].hash.clone(),
                        action,
                        new_message: copy_text(&instructions[i].new_message),
                    },
                );
            },
            None => {
                assert(kind_at(plan, i as int) is Some);
            },
        }
        i += 1;
    }
    assert(steps.deep_view() =~= steps_of(plan));
    steps
}

/// Begins an interactive rebase: refuses it where the plan breaks a rule or
/// the base is no object id, while another operation is in progress or the
/// working directory is dirty, and where the base or a commit of the plan
/// does not resolve; otherwise gives the session at its start. Nothing is
/// changed in the store before that.
pub fn start_interactive_rebase(
    facts: &StartFacts,
    base_commit: &str,
    instructions: &Vec<RebaseInstruction>,
) -> (r: Result<RebaseSession, String>)
    ensures
        match r {
            Ok(session) => {
                &&& start_refusal(
                    facts.operation,
                    facts.uncommitted,
                    facts.base_found,
                    facts.unresolved.deep_view(),
                    base_commit@,
                    instructions.deep_view(),
                ) is None
                &&& session.deep_view() == initial_session(
                    full_id(base_commit@),
                    facts.head@,
                    instructions.deep_view(),
                )
                &&& session.wf()
            },
            Err(message) => start_refusal(
                facts.operation,
                facts.uncommitted,
                facts.base_found,
                facts.unresolved.deep_view(),
                base_commit@,
                instructions.deep_view(),
            ) == Some(message@),
        },
{
    let ghost plan = instructions.deep_view();
    let validation = validate_rebase_order(instructions, &facts.unresolved, false);
    if !validation.is_valid {
        let mut message = String::from_str("Invalid rebase instructions: ");
        let all = join(&validation.errors, ", ");
        message.append(all.as_str());
        return Err(message);
    }
    let base = match parse_object_id(base_commit) {
        Some(id) => id,
        None => {
            let mut message = String::from_str("Invalid base commit hash: ");
            message.append(base_commit);
            return Err(message);
        },
    };
    if !facts.operation.is_clean() {
        return Err(
            String::from_str("Another operation is already in progress. Finish or abort it first."),
        );
    }
    if facts.uncommitted {
        return Err(
            String::from_str(
                "Working directory has uncommitted changes. Commit or stash them before rebasing.",
            ),
        );
    }
    if !facts.base_found {
        let mut message = String::from_str("Failed to find base commit: ");
        message.append(base_commit);
        return Err(message);
    }
    proof {
        lemma_valid_plan_shape(plan, facts.unresolved.deep_view());
        lemma_valid_plan_gives_valid_steps(plan, facts.unresolved.deep_view());
    }
    let steps = build_steps(instructions);
    let ghost count = steps.len();
    let conflicts: Vec<ConflictFile> = Vec::new();
    assert(conflicts.deep_view() =~= Seq::<ConflictModel>::empty());
    let session = RebaseSession {
        base,
        original_head: facts.head.clone(),
        steps,
        cursor: 0,
        state: SessionState::Running,
        buffer: None,
        produced: 0,
        conflicts,
        failure: None,
    };
    proof {
        let model = session.deep_view();
        let want = initial_session(full_id(base_commit@), facts.head@, plan);
        assert(model.steps == want.steps);
        assert(model.conflicts == want.conflicts);
        assert(model.buffer == want.buffer);
        assert(model.failure == want.failure);
        assert(model.base == want.base);
        assert(model.original_head == want.original_head);
        assert(model == want);
        assert(starters(model.steps, 0) == 0);
        assert(model.steps.len() == count);
        assert(model.wf());
    }
    Ok(session)
}

pub open spec fn nothing_to_continue_message() -> Seq<char> {
    "No rebase in progress to continue"@
}

pub open spec fn nothing_to_abort_message() -> Seq<char> {
    "No rebase in progress"@
}

pub open spec fn bookkeeping_mismatch_message() -> Seq<char> {
    "The repository's rebase bookkeeping does not match the session"@
}

/// How a request to continue is answered.
pub enum Continuation {
    /// No rebase waits to be continued.
    Refused,
    /// The store's bookkeeping disagrees with the session: it is aborted.
    Mismatch,
    /// Conflicts are left in the index: the session stays paused.
    Unresolved,
    /// The session runs again from the same cursor.
    Resumed,
}

/// How a request to continue a session is answered: refused unless the
/// store has a rebase in progress and the session is paused; a mismatch
/// where the store's own record of the plan's length and cursor differs
/// from the session's; unresolved while the index holds conflicts;
/// resumed otherwise.
pub open spec fn continuation(
    s: SessionModel,
    operation: OperationState,
    recorded_total: nat,
    recorded_cursor: nat,
    unresolved: nat,
) -> Continuation {
    if operation != OperationState::Rebase || !s.paused() {
        Continuation::Refused
    } else if recorded_total != s.steps.len() || recorded_cursor != s.cursor {
        Continuation::Mismatch
    } else if unresolved > 0 {
        Continuation::Unresolved
    } else {
        Continuation::Resumed
    }
}

/// The facts of a rebase under way, as reported to the caller.
#[derive(Clone, Debug)]
pub struct RebaseStatus {
    pub is_in_progress: bool,
    pub current_commit_index: usize,
    pub total_commits: usize,
    pub has_conflicts: bool,
    pub conflicts: Vec<ConflictFile>,
    pub onto_commit: String,
    pub original_head: String,
}

/// What the store has on record of a rebase under way.
#[derive(Clone, Debug)]
pub struct Bookkeeping {
    /// The number of operations of the rebase.
    pub total: usize,
    /// The index of the operation being applied, once one is.
    pub current: Option<usize>,
    /// The recorded commit the rebase replays onto, as stored.
    pub onto: String,
    /// The recorded pre-rebase head, as stored.
    pub original_head: String,
}

impl RebaseSession {
    /// Continues a paused session after the caller has resolved conflicts or
    /// amended a commit. `recorded_total` and `recorded_cursor` are the
    /// plan's length and cursor as the store has them on record;
    /// `unresolved` are the conflicts still in the index.
    pub fn continue_rebase(
        &mut self,
        operation: OperationState,
        recorded_total: usize,
        recorded_cursor: usize,
        unresolved: Vec<ConflictFile>,
    ) -> (r: Result<Option<RebaseResult>, String>)
        requires
            old(self).wf(),
        ensures
            final(self).wf(),
            match continuation(
                old(self).deep_view(),
                operation,
                recorded_total as nat,
                recorded_cursor as nat,
                unresolved@.len(),
            ) {
                Continuation::Refused => {
                    &&& r is Err
                    &&& r->Err_0@ == nothing_to_continue_message()
                    &&& final(self).deep_view() == old(self).deep_view()
                },
                Continuation::Mismatch => {
                    &&& r == Ok::<Option<RebaseResult>, String>(None)
                    &&& final(self).deep_view() == old(self).deep_view().failed(
                        bookkeeping_mismatch_message(),
                    )
                },
                Continuation::Unresolved => {
                    &&& r is Ok
                    &&& r->Ok_0 is Some
                    &&& r->Ok_0->0.deep_view() == (ResultModel {
                        success: false,
                        current_commit_index: if old(self).state == SessionState::Conflict {
                            (recorded_cursor + 1) as nat
                        } else {
                            recorded_cursor as nat
                        },
                        total_commits: recorded_total as nat,
                        conflicts: unresolved.deep_view(),
                        message: unresolved_message(),
                        rebase_state: SessionState::Conflict,
                    })
                    &&& final(self).deep_view() == old(self).deep_view()
                },
                Continuation::Resumed => {
                    &&& r == Ok::<Option<RebaseResult>, String>(None)
                    &&& final(self).deep_view() == old(self).deep_view().resumed()
                },
            },
    {
        assert(self.steps.deep_view().len() == self.steps@.len());
        let paused = match self.state {
            SessionState::Conflict | SessionState::StoppedForEdit => true,
            _ => false,
        };
        if !operation.is_rebase() || !paused {
            return Err(String::from_str("No rebase in progress to continue"));
        }
        if recorded_total != self.steps.len() || recorded_cursor != self.cursor {
            self.fail(
                String::from_str("The repository's rebase bookkeeping does not match the session"),
            );
            return Ok(None);
        }
        if unresolved.len() > 0 {
            let position: usize = match self.state {
                SessionState::Conflict => recorded_cursor + 1,
                _ => recorded_cursor,
            };
            return Ok(
                Some(
                    RebaseResult {
                        success: false,
                        current_commit_index: position,
                        total_commits: recorded_total,
                        conflicts: unresolved,
                        message: String::from_str(
                            "Cannot continue: conflicts still exist. Please resolve all conflicts first.",
                        ),
                        rebase_state: SessionState::Conflict,
                    },
                ),
            );
        }
        self.state = SessionState::Running;
        self.conflicts = Vec::new();
        assert(self.conflicts.deep_view() =~= Seq::<ConflictModel>::empty());
        Ok(None)
    }

    /// Aborts a live session: the store is asked to put back the head the
    /// session began from. Refused where the store has no rebase in progress
    /// or the session is over.
    pub fn abort_rebase(&mut self, operation: OperationState) -> (r: Result<StoreCommand, String>)
        requires
            old(self).wf(),
        ensures
            final(self).wf(),
            operation == OperationState::Rebase && old(self).state.live() ==> {
                &&& r is Ok
                &&& r->Ok_0.deep_view() == (CommandModel::Restore {
                    head: old(self).original_head@,
                })
                &&& final(self).deep_view() == old(self).deep_view().abort_requested()
            },
            !(operation == OperationState::Rebase && old(self).state.live()) ==> {
                &&& r is Err
                &&& r->Err_0@ == nothing_to_abort_message()
                &&& final(self).deep_view() == old(self).deep_view()
            },
    {
        let live = match self.state {
            SessionState::Completed | SessionState::Aborted => false,
            _ => true,
        };
        if !operation.is_rebase() || !live {
            return Err(String::from_str("No rebase in progress"));
        }
        self.state = SessionState::Aborting;
        Ok(StoreCommand::Restore { head: self.original_head.clone() })
    }
}

/// What a `RebaseStatus` holds, as mathematical values.
pub struct StatusModel {
    pub is_in_progress: bool,
    pub current_commit_index: nat,
    pub total_commits: nat,
    pub has_conflicts: bool,
    pub conflicts: Seq<ConflictModel>,
    pub onto_commit: Seq<char>,
    pub original_head: Seq<char>,
}

impl DeepView for RebaseStatus {
    type V = StatusModel;

    open spec fn deep_view(&self) -> StatusModel {
        StatusModel {
            is_in_progress: self.is_in_progress,
            current_commit_index: self.current_commit_index as nat,
            total_commits: self.total_commits as nat,
            has_conflicts: self.has_conflicts,
            conflicts: self.conflicts.deep_view(),
            onto_commit: self.onto_commit@,
            original_head: self.original_head@,
        }
    }
}

/// The status of a rebase of which the store has nothing on record.
pub open spec fn bare_status() -> StatusModel {
    StatusModel {
        is_in_progress: true,
        current_commit_index: 0,
        total_commits: 0,
        has_conflicts: false,
        conflicts: Seq::empty(),
        onto_commit: Seq::empty(),
        original_head: Seq::empty(),
    }
}

/// The status of a rebase under way: none unless the store has a rebase in
/// progress; the bare status where the store has nothing on record of it;
/// otherwise what is on record, with the conflicts in the index.
pub fn get_rebase_status(
    operation: OperationState,
    recorded: Option<Bookkeeping>,
    conflicts: Vec<ConflictFile>,
) -> (r: Option<RebaseStatus>)
    ensures
        operation != OperationState::Rebase ==> r is None,
        operation == OperationState::Rebase ==> r is Some,
        operation == OperationState::Rebase && recorded is None ==> r->0.deep_view()
            == bare_status(),
        operation == OperationState::Rebase && recorded is Some ==> r->0.deep_view()
            == (StatusModel {
            is_in_progress: true,
            current_commit_index: match recorded->0.current {
                Some(i) => i as nat,
                None => 0,
            },
            total_commits: recorded->0.total as nat,
            has_conflicts: conflicts@.len() > 0,
            conflicts: conflicts.deep_view(),
            onto_commit: trimmed(recorded->0.onto@),
            original_head: trimmed(recorded->0.original_head@),
        }),
{
    if !operation.is_rebase() {
        return None;
    }
    match recorded {
        None => {
            let none: Vec<ConflictFile> = Vec::new();
            assert(none.deep_view() =~= Seq::<ConflictModel>::empty());
            Some(
                RebaseStatus {
                    is_in_progress: true,
                    current_commit_index: 0,
                    total_commits: 0,
                    has_conflicts: false,
                    conflicts: none,
                    onto_commit: String::new(),
                    original_head: String::new(),
                },
            )
        },
        Some(record) => {
            let current: usize = match record.current {
                Some(i) => i,
                None => 0,
            };
            let has_conflicts = conflicts.len() > 0;
            Some(
                RebaseStatus {
                    is_in_progress: true,
                    current_commit_index: current,
                    total_commits: record.total,
                    has_conflicts,
                    conflicts,
                    onto_commit: trim(record.onto.as_str()),
                    original_head: trim(record.original_head.as_str()),
                },
            )
        },
    }
}

impl RebaseSession {
    /// Whether the session is one that a rebase can have come to: what
    /// every command of a session asks of it. A session that was stored
    /// away and read back is held to this before it is used again.
    pub fn is_well_formed(&self) -> (r: bool)
        ensures
            r == self.wf(),
    {
        let ghost steps = self.steps.deep_view();
        let total: usize = self.steps.len();
        assert(steps.len() == total);
        if total == 0 || self.cursor > total {
            return false;
        }
        assert(steps[0] == self.steps@[0].deep_view());
        if self.steps[0].action != RebaseAction::Pick {
            return false;
        }
        // Every squash or fixup directly follows a pick, reword or edit; the
        // commits begun before the cursor are counted on the way.
        let mut begun: usize = 0;
        let mut i: usize = 0;
        while i < total
            invariant
                i <= total == self.steps@.len(),
                self.cursor <= total,
                steps == self.steps.deep_view(),
                steps.len() == total,
                forall|k: int| 1 <= k < i ==> #[trigger] well_placed(steps, k),
                begun == starters(steps, (if i <= self.cursor {
                    i
                } else {
                    self.cursor
                }) as nat),
                begun <= i,
            decreases total - i,
        {
            assert(steps[i as int] == self.steps@[i as int].deep_view());
            if i >= 1 {
                assert(steps[i - 1] == self.steps@[i - 1].deep_view());
                if self.steps[i].action.is_meld() && !self.steps[i - 1].action.is_starter() {
                    assert(!well_placed(steps, i as int));
                    return false;
                }
            }
            if i < self.cursor && self.steps[i].action.is_starter() {
                begun += 1;
            }
            i += 1;
        }
        assert(steps_valid(steps));
        let open: usize = match &self.buffer {
            Some(_) => 1,
            None => 0,
        };
        if self.produced > begun || begun - self.produced != open {
            return false;
        }
        if self.cursor < total {
            assert(steps[self.cursor as int] == self.steps@[self.cursor as int].deep_view());
            let action = self.steps[self.cursor].action;
            if action.is_meld() && self.buffer.is_none() {
                return false;
            }
            let settled = match self.state {
                SessionState::Running | SessionState::Conflict | SessionState::StoppedForEdit => {
                    true
                },
                _ => false,
            };
            if settled && action == RebaseAction::Drop {
                return false;
            }
        }
        assert(self.conflicts.deep_view().len() == self.conflicts@.len());
        match self.state {
            SessionState::Conflict => self.cursor < total && self.conflicts.len() > 0,
            SessionState::Completed => self.cursor == total && self.buffer.is_none(),
            _ => true,
        }
    }
}

/// The session after a run: after each of the store's answers in turn.
pub open spec fn after_run(s: SessionModel, events: Seq<EventModel>) -> SessionModel
    decreases events.len(),
{
    if events.len() == 0 {
        s
    } else {
        after_run(s, events.drop_last()).next(events.last())
    }
}

/// Whatever the store answers, and however often, a session keeps its plan,
/// its base and the head it began from, and what holds of every session
/// holds of it still.
pub proof fn lemma_run_keeps_session(s: SessionModel, events: Seq<EventModel>)
    requires
        s.wf(),
    ensures
        after_run(s, events).wf(),
        after_run(s, events).steps == s.steps,
        after_run(s, events).base == s.base,
        after_run(s, events).original_head == s.original_head,
    decreases events.len(),
{
    if events.len() > 0 {
        lemma_run_keeps_session(s, events.drop_last());
        lemma_next_keeps_session(after_run(s, events.drop_last()), events.last());
    }
}

/// Aborting a rebase, at whatever point of its run, asks the store to put
/// back exactly the head that was recorded when the rebase began.
pub proof fn lemma_abort_after_any_run(
    base: Seq<char>,
    head: Seq<char>,
    plan: Seq<InstructionModel>,
    unresolved: Seq<Seq<char>>,
    events: Seq<EventModel>,
)
    requires
        valid_plan(plan, unresolved),
        plan.len() <= usize::MAX,
    ensures
        after_run(initial_session(base, head, plan), events).abort_requested().command() == (
        CommandModel::Restore { head }),
{
    let start = initial_session(base, head, plan);
    lemma_valid_plan_gives_valid_steps(plan, unresolved);
    assert(starters(start.steps, 0) == 0);
    lemma_run_keeps_session(start, events);
}

/// A rebase that runs a valid plan to completion, whatever happened on the
/// way, has written exactly one commit for each pick, reword and edit of
/// the plan: as many as the plan has instructions, less its drops,
/// squashes and fixups.
pub proof fn lemma_completed_run_length(
    base: Seq<char>,
    head: Seq<char>,
    plan: Seq<InstructionModel>,
    unresolved: Seq<Seq<char>>,
    events: Seq<EventModel>,
)
    requires
        valid_plan(plan, unresolved),
        plan.len() <= usize::MAX,
        after_run(initial_session(base, head, plan), events).state == SessionState::Completed,
    ensures
        after_run(initial_session(base, head, plan), events).produced == count_starters(
            plan,
            plan.len(),
        ),
        after_run(initial_session(base, head, plan), events).produced == plan.len() - count_kind(
            plan,
            RebaseAction::Drop,
            plan.len(),
        ) - count_melds(plan, plan.len()),
{
    let start = initial_session(base, head, plan);
    lemma_valid_plan_gives_valid_steps(plan, unresolved);
    assert(starters(start.steps, 0) == 0);
    lemma_run_keeps_session(start, events);
    lemma_completed_rebase_length(after_run(start, events), plan, unresolved);
}

} // verus!
