//! The stash lifecycle: creating, listing, applying, popping and dropping
//! snapshots of uncommitted work. The stash list is kept as the store keeps
//! it: newest first, each entry numbered by its place.

use crate::store::OperationState;
use crate::text::{append_decimal, chars_of, contains, decimal, find_from, first_at,
    first_occurrence, lemma_first_occurrence, matches_at, mentions, occurs_at, string_of,
    trim_bounds, trimmed};
use vstd::prelude::*;

verus! {

/// One stash, as the caller sees it.
#[derive(Clone, Debug)]
pub struct StashEntry {
    /// The place in the stash list; 0 is the most recent.
    pub index: usize,
    pub message: String,
    /// The branch the stash was made on.
    pub branch: String,
    pub timestamp: i64,
    pub oid: String,
    pub file_count: usize,
}

/// What a `StashEntry` holds, as mathematical values.
pub struct StashModel {
    pub index: nat,
    pub message: Seq<char>,
    pub branch: Seq<char>,
    pub timestamp: int,
    pub oid: Seq<char>,
    pub file_count: nat,
}

impl DeepView for StashEntry {
    type V = StashModel;

    open spec fn deep_view(&self) -> StashModel {
        StashModel {
            index: self.index as nat,
            message: self.message@,
            branch: self.branch@,
            timestamp: self.timestamp as int,
            oid: self.oid@,
            file_count: self.file_count as nat,
        }
    }
}

/// One stash, as the store enumerates it: its message and identity, and the
/// time and number of changed files of its snapshot where that could be read.
#[derive(Clone, Debug)]
pub struct StashRecord {
    pub message: String,
    pub oid: String,
    pub timestamp: Option<i64>,
    pub file_count: Option<usize>,
}

/// Where the branch begins in a stash message: behind a leading `WIP on `,
/// as the store names a stash that was given no message, or else behind the
/// first `On `, as it names one that was.
pub open spec fn branch_start(message: Seq<char>) -> Option<int> {
    if occurs_at(message, "WIP on "@, 0) {
        Some(7)
    } else {
        match first_occurrence(message, "On "@, 0) {
            Some(at) => Some(at + 3),
            None => None,
        }
    }
}

/// The branch that a stash was made on, as its message names it: what
/// stands between `WIP on ` or `On ` and the first colon after it, trimmed;
/// `unknown` where the message has no such part.
pub open spec fn stash_branch(message: Seq<char>) -> Seq<char> {
    match branch_start(message) {
        Some(start) => {
            let rest = message.subrange(start, message.len() as int);
            match first_occurrence(rest, ":"@, 0) {
                Some(colon) => trimmed(rest.subrange(0, colon)),
                None => "unknown"@,
            }
        },
        None => "unknown"@,
    }
}

/// The branch that a stash was made on, as its message names it.
pub fn branch_of_message(message: &str) -> (branch: String)
    ensures
        branch@ == stash_branch(message@),
{
    proof {
        reveal_strlit("On ");
        reveal_strlit("WIP on ");
        reveal_strlit(":");
    }
    let text = chars_of(message);
    let on = chars_of("On ");
    let wip = chars_of("WIP on ");
    let colon = chars_of(":");
    let length: usize = text.len();
    let begin: Option<usize> = if matches_at(&text, &wip, 0) {
        assert(wip@.len() == 7);
        Some(7)
    } else {
        match find_from(&text, &on, 0) {
            None => None,
            Some(at) => {
                assert(on@.len() == 3);
                assert(first_at(text@, on@, 0, at as int));
                assert(at + 3 <= length);
                Some(at + 3)
            },
        }
    };
    match begin {
        None => String::from_str("unknown"),
        Some(start) => {
            assert(branch_start(text@) == Some(start as int));
            assert(start <= length);
            let ghost rest = text@.subrange(start as int, text@.len() as int);
            let mut i: usize = start;
            while i < text.len() && text[i] != ':'
                invariant
                    start <= i <= text@.len(),
                    forall|j: int| start <= j < i ==> text@[j] != ':',
                decreases text@.len() - i,
            {
                i += 1;
            }
            if i == text.len() {
                proof {
                    assert forall|c: int| !first_at(rest, colon@, 0, c) by {
                        if occurs_at(rest, colon@, c) {
                            assert(rest.subrange(c, c + 1)[0] == ':');
                            assert(rest[c] == text@[start + c]);
                        }
                    }
                }
                String::from_str("unknown")
            } else {
                proof {
                    let c = i - start;
                    assert(rest.subrange(c, c + 1) =~= colon@);
                    assert forall|j: int| 0 <= j < c implies !occurs_at(rest, colon@, j) by {
                        if occurs_at(rest, colon@, j) {
                            assert(rest.subrange(j, j + 1)[0] == ':');
                            assert(rest[j] == text@[start + j]);
                        }
                    }
                    lemma_first_occurrence(rest, colon@, 0, c);
                    assert(rest.subrange(0, c) =~= text@.subrange(start as int, i as int));
                }
                let (a, b) = trim_bounds(&text, start, i);
                string_of(&text, a, b)
            }
        },
    }
}

/// The entry that stands for the record at place `index`.
pub open spec fn entry_of(record: StashRecord, index: nat) -> StashModel {
    StashModel {
        index,
        message: record.message@,
        branch: stash_branch(record.message@),
        timestamp: match record.timestamp {
            Some(t) => t as int,
            None => 0,
        },
        oid: record.oid@,
        file_count: match record.file_count {
            Some(n) => n as nat,
            None => 0,
        },
    }
}

/// Every stash of the store, numbered from the most recent.
pub fn list_stashes(records: &Vec<StashRecord>) -> (entries: Vec<StashEntry>)
    ensures
        entries@.len() == records@.len(),
        forall|i: int|
            0 <= i < records@.len() ==> (#[trigger] entries@[i]).deep_view() == entry_of(
                records@[i],
                i as nat,
            ),
        numbered(entries.deep_view()),
{
    let mut entries: Vec<StashEntry> = Vec::new();
    let mut i: usize = 0;
    while i < records.len()
        invariant
            i <= records@.len(),
            entries@.len() == i,
            forall|j: int|
                0 <= j < i ==> (#[trigger] entries@[j]).deep_view() == entry_of(
                    records@[j],
                    j as nat,
                ),
        decreases records@.len() - i,
    {
        let record = &records[i];
        entries.push(
            StashEntry {
                index: i,
                message: record.message.clone(),
                branch: branch_of_message(record.message.as_str()),
                timestamp: match record.timestamp {
                    Some(t) => t,
                    None => 0,
                },
                oid: record.oid.clone(),
                file_count: match record.file_count {
                    Some(n) => n,
                    None => 0,
                },
            },
        );
        i += 1;
    }
    proof {
        let view = entries.deep_view();
        assert forall|j: int| 0 <= j < view.len() implies (#[trigger] view[j]).index == j by {
            assert(view[j] == entries@[j].deep_view());
        }
    }
    entries
}

/// Every entry of a stash list is numbered by its place.
pub open spec fn numbered(list: Seq<StashModel>) -> bool {
    forall|i: int| 0 <= i < list.len() ==> (#[trigger] list[i]).index == i
}

/// The stash list once the entry at `index` is removed: the entries before
/// it stay, the later ones move down by one.
pub open spec fn without(list: Seq<StashModel>, index: int) -> Seq<StashModel> {
    Seq::new(
        (list.len() - 1) as nat,
        |i: int|
            if i < index {
                list[i]
            } else {
                StashModel { index: i as nat, ..list[i + 1] }
            },
    )
}

/// The stash list once a new entry is put at its head: every older entry
/// moves up by one.
pub open spec fn with_newest(list: Seq<StashModel>, newest: StashModel) -> Seq<StashModel> {
    Seq::new(
        list.len() + 1,
        |i: int|
            if i == 0 {
                StashModel { index: 0, ..newest }
            } else {
                StashModel { index: i as nat, ..list[i - 1] }
            },
    )
}

/// Removes the entry at `index` from a stash list and renumbers the rest.
pub fn remove_entry(list: &mut Vec<StashEntry>, index: usize)
    requires
        index < old(list)@.len(),
    ensures
        final(list).deep_view() == without(old(list).deep_view(), index as int),
{
    let ghost before = list.deep_view();
    list.remove(index);
    let mut i: usize = index;
    while i < list.len()
        invariant
            index <= i <= list@.len(),
            list@.len() == before.len() - 1,
            forall|j: int| 0 <= j < index ==> (#[trigger] list@[j]).deep_view() == before[j],
            forall|j: int|
                index <= j < i ==> (#[trigger] list@[j]).deep_view() == (StashModel {
                    index: j as nat,
                    ..before[j + 1]
                }),
            forall|j: int| i <= j < list@.len() ==> (#[trigger] list@[j]).deep_view() == before[j + 1],
        decreases list@.len() - i,
    {
        let ghost at = list@;
        let mut entry = list.remove(i);
        entry.index = i;
        list.insert(i, entry);
        assert forall|j: int| i < j < list@.len() implies (#[trigger] list@[j]).deep_view()
            == before[j + 1] by {
            assert(list@[j] == at[j]);
        }
        assert forall|j: int| 0 <= j < i implies list@[j] == at[j] by {}
        i += 1;
    }
    assert(list.deep_view() =~= without(before, index as int));
}

/// What the store reports after it was asked to apply or drop a stash.
#[derive(Clone, Debug)]
pub enum StashReport {
    /// It was done.
    Done,
    /// It failed, with these words.
    Failed { message: String },
}

/// The failure speaks of conflicts.
pub open spec fn speaks_of_conflict(message: Seq<char>) -> bool {
    mentions(message, "conflict"@)
}

pub open spec fn stash_name(index: nat) -> Seq<char> {
    "Stash @{"@ + decimal(index) + "}"@
}

pub open spec fn applied_message(index: nat) -> Seq<char> {
    stash_name(index) + " applied successfully"@
}

pub open spec fn popped_message(index: nat) -> Seq<char> {
    stash_name(index) + " popped successfully"@
}

pub open spec fn dropped_message(index: nat) -> Seq<char> {
    stash_name(index) + " dropped successfully"@
}

pub open spec fn apply_conflict_message() -> Seq<char> {
    "Conflicts detected while applying stash. Please resolve manually."@
}

pub open spec fn pop_conflict_message() -> Seq<char> {
    "Conflicts detected while popping stash. Stash was not removed."@
}

pub open spec fn dirty_apply_message() -> Seq<char> {
    "Working directory has uncommitted changes. Commit or stash them before applying."@
}

pub open spec fn dirty_pop_message() -> Seq<char> {
    "Working directory has uncommitted changes. Commit or stash them before popping."@
}

pub open spec fn nothing_to_stash_message() -> Seq<char> {
    "No changes to stash. Working directory is clean."@
}

fn name_of(index: usize) -> (name: String)
    ensures
        name@ == stash_name(index as nat),
{
    let mut name = String::from_str("Stash @{");
    append_decimal(&mut name, index);
    name.append("}");
    name
}

/// What applying a stash comes to, where it was tried: success, a report
/// of conflicts, or the store's failure.
pub open spec fn apply_outcome(index: nat, report: StashReport) -> Result<Seq<char>, Seq<char>> {
    match report {
        StashReport::Done => Ok(applied_message(index)),
        StashReport::Failed { message } => if speaks_of_conflict(message@) {
            Err(apply_conflict_message())
        } else {
            Err("Failed to apply stash: "@ + message@)
        },
    }
}

/// What popping a stash comes to, where it was tried.
pub open spec fn pop_outcome(index: nat, report: StashReport) -> Result<Seq<char>, Seq<char>> {
    match report {
        StashReport::Done => Ok(popped_message(index)),
        StashReport::Failed { message } => if speaks_of_conflict(message@) {
            Err(pop_conflict_message())
        } else {
            Err("Failed to pop stash: "@ + message@)
        },
    }
}

/// What two results of text match.
pub open spec fn same_text_result(got: Result<String, String>, want: Result<Seq<char>, Seq<char>>)
    -> bool {
    match (got, want) {
        (Ok(a), Ok(b)) => a@ == b,
        (Err(a), Err(b)) => a@ == b,
        _ => false,
    }
}

pub open spec fn busy_stash_message() -> Seq<char> {
    "Another operation is already in progress. Finish or abort it first."@
}

/// Why a stash may not be applied or popped, if it may not: an operation
/// is in progress, or the working directory or index holds uncommitted
/// changes.
pub open spec fn stash_refusal(operation: OperationState, uncommitted: bool, popping: bool)
    -> Option<Seq<char>> {
    if operation != OperationState::Clean {
        Some(busy_stash_message())
    } else if uncommitted {
        Some(
            if popping {
                dirty_pop_message()
            } else {
                dirty_apply_message()
            },
        )
    } else {
        None
    }
}

/// Whether a stash may be applied or popped. The caller asks this before
/// anything is asked of the store.
pub fn check_stash_apply(operation: OperationState, uncommitted: bool, popping: bool) -> (r:
    Result<(), String>)
    ensures
        match r {
            Ok(_) => stash_refusal(operation, uncommitted, popping) is None,
            Err(message) => stash_refusal(operation, uncommitted, popping) == Some(message@),
        },
{
    if !operation.is_clean() {
        Err(
            String::from_str("Another operation is already in progress. Finish or abort it first."),
        )
    } else if !uncommitted {
        Ok(())
    } else if popping {
        Err(
            String::from_str(
                "Working directory has uncommitted changes. Commit or stash them before popping.",
            ),
        )
    } else {
        Err(
            String::from_str(
                "Working directory has uncommitted changes. Commit or stash them before applying.",
            ),
        )
    }
}

/// Reports how applying the stash at `stash_index` went. While an operation
/// is in progress or changes are uncommitted it is refused, whatever the
/// report says: nothing may have been asked of the store. The stash list is
/// not touched.
pub fn apply_stash(
    stash_index: usize,
    operation: OperationState,
    uncommitted: bool,
    report: &StashReport,
) -> (r: Result<String, String>)
    ensures
        match stash_refusal(operation, uncommitted, false) {
            Some(why) => r is Err && r->Err_0@ == why,
            None => same_text_result(r, apply_outcome(stash_index as nat, *report)),
        },
{
    match check_stash_apply(operation, uncommitted, false) {
        Err(why) => {
            return Err(why);
        },
        Ok(_) => {},
    }
    match report {
        StashReport::Done => {
            let mut message = name_of(stash_index);
            message.append(" applied successfully");
            Ok(message)
        },
        StashReport::Failed { message } => {
            if contains(message.as_str(), "conflict") {
                Err(
                    String::from_str(
                        "Conflicts detected while applying stash. Please resolve manually.",
                    ),
                )
            } else {
                let mut text = String::from_str("Failed to apply stash: ");
                text.append(message.as_str());
                Err(text)
            }
        },
    }
}

/// Finishes a pop of the stash at `stash_index`. While an operation is in
/// progress or changes are uncommitted the pop is refused and the list stays
/// as it was, whatever the report says. Otherwise: where the store applied
/// the stash, the entry leaves the list and the later entries move down by
/// one; where it met conflicts or failed, the list stays exactly as it was.
pub fn pop_stash(
    list: &mut Vec<StashEntry>,
    stash_index: usize,
    operation: OperationState,
    uncommitted: bool,
    report: &StashReport,
) -> (r: Result<String, String>)
    ensures
        match stash_refusal(operation, uncommitted, true) {
            Some(why) => r is Err && r->Err_0@ == why && *final(list) == *old(list),
            None => {
                &&& same_text_result(r, pop_outcome(stash_index as nat, *report))
                &&& report is Done && stash_index < old(list)@.len() ==> final(list).deep_view()
                    == without(old(list).deep_view(), stash_index as int)
                &&& !(report is Done && stash_index < old(list)@.len()) ==> *final(list) == *old(
                    list,
                )
            },
        },
{
    match check_stash_apply(operation, uncommitted, true) {
        Err(why) => {
            return Err(why);
        },
        Ok(_) => {},
    }
    match report {
        StashReport::Done => {
            if stash_index < list.len() {
                remove_entry(list, stash_index);
            }
            let mut message = name_of(stash_index);
            message.append(" popped successfully");
            Ok(message)
        },
        StashReport::Failed { message } => {
            if contains(message.as_str(), "conflict") {
                Err(
                    String::from_str(
                        "Conflicts detected while popping stash. Stash was not removed.",
                    ),
                )
            } else {
                let mut text = String::from_str("Failed to pop stash: ");
                text.append(message.as_str());
                Err(text)
            }
        },
    }
}

/// Finishes a drop once the store has tried to remove the stash at
/// `stash_index`.
pub fn drop_stash(list: &mut Vec<StashEntry>, stash_index: usize, report: &StashReport) -> (r:
    Result<String, String>)
    ensures
        match *report {
            StashReport::Done => r is Ok && r->Ok_0@ == dropped_message(stash_index as nat),
            StashReport::Failed { message } => r is Err && r->Err_0@ == "Failed to drop stash: "@
                + message@,
        },
        report is Done && stash_index < old(list)@.len() ==> final(list).deep_view() == without(
            old(list).deep_view(),
            stash_index as int,
        ),
        !(report is Done && stash_index < old(list)@.len()) ==> *final(list) == *old(list),
{
    match report {
        StashReport::Done => {
            if stash_index < list.len() {
                remove_entry(list, stash_index);
            }
            let mut message = name_of(stash_index);
            message.append(" dropped successfully");
            Ok(message)
        },
        StashReport::Failed { message } => {
            let mut text = String::from_str("Failed to drop stash: ");
            text.append(message.as_str());
            Err(text)
        },
    }
}

/// A pop that goes through removes exactly the entry it was aimed at: the
/// list is one shorter, the entries before the index are untouched, every
/// later entry stands one place below where it stood, and each entry is
/// numbered by its place again.
pub proof fn lemma_pop_removes_target(list: Seq<StashModel>, index: int)
    requires
        numbered(list),
        0 <= index < list.len(),
    ensures
        without(list, index).len() == list.len() - 1,
        forall|i: int| 0 <= i < index ==> without(list, index)[i] == list[i],
        forall|i: int|
            index <= i < list.len() - 1 ==> (#[trigger] without(list, index)[i]) == (StashModel {
                index: i as nat,
                ..list[i + 1]
            }),
        numbered(without(list, index)),
{
}

/// `chrono::Local::now`, written as year-month-day hour:minute:second: the
/// local time at the moment of the call. Nothing is claimed of the text.
#[verifier::external_body]
fn local_time_text() -> (stamp: String) {
    chrono::Local::now().format("%Y-%m-%d %H:%M:%S").to_string()
}

/// What the caller asks of a new stash.
#[derive(Clone, Debug)]
pub struct StashCreateOptions {
    pub message: Option<String>,
    pub include_untracked: bool,
    pub keep_index: bool,
}

/// What the store is asked to save.
#[derive(Clone, Debug)]
pub struct StashRequest {
    pub message: String,
    pub branch: String,
    pub include_untracked: bool,
    pub keep_index: bool,
}

/// The message of a stash that was given none.
pub open spec fn wip_message(branch: Seq<char>, stamp: Seq<char>) -> Seq<char> {
    "WIP on "@ + branch + ": "@ + stamp
}

/// `message` is the message of a stash that was given none, made on
/// `branch` at some time.
pub open spec fn stamped(message: Seq<char>, branch: Seq<char>) -> bool {
    exists|stamp: Seq<char>| message == #[trigger] wip_message(branch, stamp)
}

/// The branch a stash is recorded under: the current one, or `HEAD` where
/// HEAD names none.
pub open spec fn stash_origin(head_branch: Option<Seq<char>>) -> Seq<char> {
    match head_branch {
        Some(name) => name,
        None => "HEAD"@,
    }
}

/// The message of a stash: the caller's, or one made of the branch and the
/// time `stamp`.
pub fn stash_message(custom: Option<String>, branch: &str, stamp: &str) -> (message: String)
    ensures
        message@ == match custom {
            Some(text) => text@,
            None => wip_message(branch@, stamp@),
        },
{
    match custom {
        Some(text) => text,
        None => {
            let mut message = String::from_str("WIP on ");
            message.append(branch);
            message.append(": ");
            message.append(stamp);
            message
        },
    }
}

/// Prepares a new stash: refused where nothing is modified or staged;
/// otherwise the request for the store, under the caller's message or one
/// made of the current branch and the local time.
pub fn create_stash(has_changes: bool, head_branch: Option<String>, options: StashCreateOptions)
    -> (r: Result<StashRequest, String>)
    ensures
        !has_changes ==> r is Err && r->Err_0@ == nothing_to_stash_message(),
        has_changes ==> {
            &&& r is Ok
            &&& r->Ok_0.branch@ == stash_origin(head_branch.deep_view())
            &&& r->Ok_0.include_untracked == options.include_untracked
            &&& r->Ok_0.keep_index == options.keep_index
            &&& options.message is Some ==> r->Ok_0.message@ == options.message->0@
            &&& options.message is None ==> stamped(
                r->Ok_0.message@,
                stash_origin(head_branch.deep_view()),
            )
        },
{
    if !has_changes {
        return Err(String::from_str("No changes to stash. Working directory is clean."));
    }
    let branch = match head_branch {
        Some(name) => name,
        None => String::from_str("HEAD"),
    };
    let message = match options.message {
        Some(text) => text,
        None => {
            let stamp = local_time_text();
            let text = stash_message(None, branch.as_str(), stamp.as_str());
            assert(text@ == wip_message(branch@, stamp@));
            assert(stamped(text@, branch@));
            text
        },
    };
    Ok(
        StashRequest {
            message,
            branch,
            include_untracked: options.include_untracked,
            keep_index: options.keep_index,
        },
    )
}

/// Records a stash that the store has saved: it becomes entry 0, and every
/// older entry moves up by one.
pub fn record_stash(
    list: &mut Vec<StashEntry>,
    request: &StashRequest,
    oid: &str,
    timestamp: i64,
    file_count: usize,
) -> (entry: StashEntry)
    requires
        old(list)@.len() < usize::MAX,
    ensures
        entry.deep_view() == (StashModel {
            index: 0,
            message: request.message@,
            branch: request.branch@,
            timestamp: timestamp as int,
            oid: oid@,
            file_count: file_count as nat,
        }),
        final(list).deep_view() == with_newest(old(list).deep_view(), entry.deep_view()),
{
    let ghost before = list.deep_view();
    let mut i: usize = 0;
    while i < list.len()
        invariant
            i <= list@.len(),
            list@.len() == before.len() < usize::MAX,
            forall|j: int|
                0 <= j < i ==> (#[trigger] list@[j]).deep_view() == (StashModel {
                    index: (j + 1) as nat,
                    ..before[j]
                }),
            forall|j: int| i <= j < list@.len() ==> (#[trigger] list@[j]).deep_view() == before[j],
        decreases list@.len() - i,
    {
        let ghost at = list@;
        let mut older = list.remove(i);
        older.index = i + 1;
        list.insert(i, older);
        assert forall|j: int| i < j < list@.len() implies (#[trigger] list@[j]).deep_view()
            == before[j] by {
            assert(list@[j] == at[j]);
        }
        assert forall|j: int| 0 <= j < i implies list@[j] == at[j] by {}
        i += 1;
    }
    let newest = StashEntry {
        index: 0,
        message: request.message.clone(),
        branch: request.branch.clone(),
        timestamp,
        oid: String::from_str(oid),
        file_count,
    };
    let entry = StashEntry {
        index: 0,
        message: request.message.clone(),
        branch: request.branch.clone(),
        timestamp,
        oid: String::from_str(oid),
        file_count,
    };
    list.insert(0, newest);
    assert(list.deep_view() =~= with_newest(before, entry.deep_view()));
    entry
}

} // verus!
