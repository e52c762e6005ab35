//! Opening a repository and the small commands around it: remote status,
//! fetch results, commits, and the staging area.

use crate::store::{StoreError, StoreErrorKind};
use crate::text::{append_decimal, blank, chars_of, decimal, is_blank, prefix, string_of,
    take_chars};
use vstd::prelude::*;

verus! {

/// What HEAD is, as the store gives it.
#[derive(Clone, Debug)]
pub enum HeadState {
    /// HEAD names a branch; `shorthand` is the branch's short name where it is
    /// valid text.
    Branch { shorthand: Option<String> },
    /// HEAD points at a commit directly; `target` is the commit's id where
    /// HEAD has one.
    Detached { target: Option<String> },
    /// HEAD could not be read.
    Unreadable { error: StoreError },
}

/// What the store says of a repository it has opened.
#[derive(Clone, Debug)]
pub struct RepoFacts {
    /// The last component of the path, where it is valid text.
    pub name: Option<String>,
    pub head: HeadState,
    pub is_bare: bool,
}

/// What the caller is told of an opened repository.
#[derive(Clone, Debug)]
pub struct RepoInfo {
    pub name: String,
    pub path: String,
    pub current_branch: String,
    pub is_bare: bool,
}

pub open spec fn missing_path_message(path: Seq<char>) -> Seq<char> {
    "Path does not exist: "@ + path
}

pub open spec fn not_a_repository_message(path: Seq<char>) -> Seq<char> {
    "Not a Git repository: "@ + path
        + "\n\nMake sure you've selected a folder that contains a .git directory."@
}

pub open spec fn bare_repository_message(path: Seq<char>) -> Seq<char> {
    "This is a bare repository: "@ + path
        + "\n\nBare repositories don't have a working directory."@
}

pub open spec fn open_failed_message(error: Seq<char>) -> Seq<char> {
    "Failed to open repository: "@ + error
}

pub open spec fn branch_unreadable_message(error: Seq<char>) -> Seq<char> {
    "Failed to get branch information: "@ + error
}

/// What the caller is told where the store cannot open a path.
pub open spec fn open_failure(path: Seq<char>, kind: StoreErrorKind, error: Seq<char>) -> Seq<
    char,
> {
    match kind {
        StoreErrorKind::NotFound => not_a_repository_message(path),
        StoreErrorKind::BareRepo => bare_repository_message(path),
        _ => open_failed_message(error),
    }
}

/// What the caller is told where the store cannot open a path.
pub fn open_failure_message(path: &str, error: &StoreError) -> (m: String)
    ensures
        m@ == open_failure(path@, error.kind, error.message@),
{
    match error.kind {
        StoreErrorKind::NotFound => {
            let mut m = String::from_str("Not a Git repository: ");
            m.append(path);
            m.append("\n\nMake sure you've selected a folder that contains a .git directory.");
            m
        },
        StoreErrorKind::BareRepo => {
            let mut m = String::from_str("This is a bare repository: ");
            m.append(path);
            m.append("\n\nBare repositories don't have a working directory.");
            m
        },
        _ => {
            let mut m = String::from_str("Failed to open repository: ");
            m.append(error.message.as_str());
            m
        },
    }
}

/// The name under which a detached HEAD is shown.
pub open spec fn detached_label(target: Option<Seq<char>>) -> Seq<char> {
    "HEAD (detached at "@ + (match target {
        Some(id) => prefix(id, 7),
        None => "0000000"@,
    }) + ")"@
}

/// The name under which the current branch is shown: the branch's short
/// name; the place of a detached HEAD; a placeholder for a repository
/// without commits; an error where HEAD cannot be read for another reason.
pub open spec fn branch_label(head: HeadState) -> Result<Seq<char>, Seq<char>> {
    match head {
        HeadState::Branch { shorthand } => Ok(
            match shorthand {
                Some(name) => name@,
                None => "unknown"@,
            },
        ),
        HeadState::Detached { target } => Ok(detached_label(target.deep_view())),
        HeadState::Unreadable { error } => if error.kind == StoreErrorKind::UnbornBranch {
            Ok("main (no commits yet)"@)
        } else {
            Err(branch_unreadable_message(error.message@))
        },
    }
}

/// The name under which the current branch is shown.
pub fn current_branch_label(head: &HeadState) -> (r: Result<String, String>)
    ensures
        match (r, branch_label(*head)) {
            (Ok(got), Ok(want)) => got@ == want,
            (Err(got), Err(want)) => got@ == want,
            _ => false,
        },
{
    match head {
        HeadState::Branch { shorthand } => match shorthand {
            Some(name) => Ok(name.clone()),
            None => Ok(String::from_str("unknown")),
        },
        HeadState::Detached { target } => {
            let mut label = String::from_str("HEAD (detached at ");
            match target {
                Some(id) => {
                    let short = take_chars(id.as_str(), 7);
                    label.append(short.as_str());
                },
                None => {
                    label.append("0000000");
                },
            }
            label.append(")");
            Ok(label)
        },
        HeadState::Unreadable { error } => match error.kind {
            StoreErrorKind::UnbornBranch => Ok(String::from_str("main (no commits yet)")),
            _ => {
                let mut m = String::from_str("Failed to get branch information: ");
                m.append(error.message.as_str());
                Err(m)
            },
        },
    }
}

/// What opening a path comes to.
pub open spec fn open_outcome(
    path: Seq<char>,
    path_exists: bool,
    opened: Result<RepoFacts, StoreError>,
) -> Result<(Seq<char>, Seq<char>, bool), Seq<char>> {
    if !path_exists {
        Err(missing_path_message(path))
    } else {
        match opened {
            Err(error) => Err(open_failure(path, error.kind, error.message@)),
            Ok(facts) => match branch_label(facts.head) {
                Err(why) => Err(why),
                Ok(branch) => Ok(
                    (
                        match facts.name {
                            Some(name) => name@,
                            None => "unknown"@,
                        },
                        branch,
                        facts.is_bare,
                    ),
                ),
            },
        }
    }
}

/// Describes a repository that the store has tried to open: refused where
/// the path does not exist or the store could not open it, or where HEAD
/// cannot be read; a repository without commits is described, not refused.
pub fn open_repository(path: &str, path_exists: bool, opened: &Result<RepoFacts, StoreError>) -> (r:
    Result<RepoInfo, String>)
    ensures
        match (r, open_outcome(path@, path_exists, *opened)) {
            (Ok(info), Ok(want)) => {
                &&& info.name@ == want.0
                &&& info.path@ == path@
                &&& info.current_branch@ == want.1
                &&& info.is_bare == want.2
            },
            (Err(got), Err(want)) => got@ == want,
            _ => false,
        },
{
    if !path_exists {
        let mut m = String::from_str("Path does not exist: ");
        m.append(path);
        return Err(m);
    }
    match opened {
        Err(error) => Err(open_failure_message(path, error)),
        Ok(facts) => match current_branch_label(&facts.head) {
            Err(why) => Err(why),
            Ok(branch) => Ok(
                RepoInfo {
                    name: match &facts.name {
                        Some(name) => name.clone(),
                        None => String::from_str("unknown"),
                    },
                    path: String::from_str(path),
                    current_branch: branch,
                    is_bare: facts.is_bare,
                },
            ),
        },
    }
}

/// How a branch stands to its upstream.
#[derive(Clone, Debug)]
pub struct RemoteStatus {
    pub has_remote: bool,
    pub remote_name: String,
    pub remote_url: String,
    pub ahead: usize,
    pub behind: usize,
    pub up_to_date: bool,
}

/// The remote that an upstream branch name begins with: what stands before
/// its first slash, or all of it where it holds none.
pub open spec fn remote_part(upstream: Seq<char>) -> Seq<char>
    decreases upstream.len(),
{
    if upstream.len() == 0 || upstream[0] == '/' {
        Seq::empty()
    } else {
        seq![upstream[0]] + remote_part(upstream.drop_first())
    }
}

/// The remote that an upstream branch name begins with.
pub fn remote_of_upstream(upstream: &str) -> (remote: String)
    ensures
        remote@ == remote_part(upstream@),
{
    let text = chars_of(upstream);
    let mut i: usize = 0;
    while i < text.len() && text[i] != '/'
        invariant
            i <= text@.len(),
            forall|j: int| 0 <= j < i ==> text@[j] != '/',
        decreases text@.len() - i,
    {
        i += 1;
    }
    proof {
        lemma_remote_part(text@, i as int);
    }
    string_of(&text, 0, i)
}

/// Where the first slash of a text stands at `cut`, or the text ends there
/// without one, the remote part is what stands before `cut`.
pub proof fn lemma_remote_part(text: Seq<char>, cut: int)
    requires
        0 <= cut <= text.len(),
        forall|j: int| 0 <= j < cut ==> text[j] != '/',
        cut == text.len() || text[cut] == '/',
    ensures
        remote_part(text) == text.subrange(0, cut),
    decreases cut,
{
    if cut == 0 {
        assert(text.subrange(0, 0) =~= Seq::<char>::empty());
    } else {
        let rest = text.drop_first();
        assert forall|j: int| 0 <= j < cut - 1 implies rest[j] != '/' by {
            assert(rest[j] == text[j + 1]);
        }
        lemma_remote_part(rest, cut - 1);
        assert(seq![text[0]] + rest.subrange(0, cut - 1) =~= text.subrange(0, cut));
    }
}

/// What the store knows of a branch's upstream.
#[derive(Clone, Debug)]
pub struct UpstreamFacts {
    pub remote_name: String,
    pub remote_url: String,
    pub ahead: usize,
    pub behind: usize,
}

/// How a branch stands to its upstream: without an upstream it has no
/// remote and counts as up to date; with one, it is up to date exactly when
/// it is neither ahead nor behind.
pub fn get_remote_status(upstream: Option<UpstreamFacts>) -> (status: RemoteStatus)
    ensures
        status.has_remote == upstream is Some,
        upstream is None ==> {
            &&& status.remote_name@.len() == 0
            &&& status.remote_url@.len() == 0
            &&& status.ahead == 0
            &&& status.behind == 0
            &&& status.up_to_date
        },
        upstream is Some ==> {
            &&& status.remote_name@ == upstream->0.remote_name@
            &&& status.remote_url@ == upstream->0.remote_url@
            &&& status.ahead == upstream->0.ahead
            &&& status.behind == upstream->0.behind
            &&& status.up_to_date == (upstream->0.ahead == 0 && upstream->0.behind == 0)
        },
{
    match upstream {
        None => RemoteStatus {
            has_remote: false,
            remote_name: String::new(),
            remote_url: String::new(),
            ahead: 0,
            behind: 0,
            up_to_date: true,
        },
        Some(facts) => {
            let up_to_date = facts.ahead == 0 && facts.behind == 0;
            RemoteStatus {
                has_remote: true,
                remote_name: facts.remote_name,
                remote_url: facts.remote_url,
                ahead: facts.ahead,
                behind: facts.behind,
                up_to_date,
            }
        },
    }
}

/// What a fetch reports to the caller.
#[derive(Clone, Debug)]
pub struct FetchResult {
    pub success: bool,
    pub bytes_received: usize,
    pub objects_received: usize,
    pub message: String,
}

pub open spec fn fetched_message(objects: nat, bytes: nat) -> Seq<char> {
    "Fetched "@ + decimal(objects) + " objects ("@ + decimal(bytes) + " bytes)"@
}

/// The report of a fetch that went through.
pub fn fetch_from_remote(objects_received: usize, bytes_received: usize) -> (r: FetchResult)
    ensures
        r.success,
        r.bytes_received == bytes_received,
        r.objects_received == objects_received,
        r.message@ == fetched_message(objects_received as nat, bytes_received as nat),
{
    let mut message = String::from_str("Fetched ");
    append_decimal(&mut message, objects_received);
    message.append(" objects (");
    append_decimal(&mut message, bytes_received);
    message.append(" bytes)");
    FetchResult { success: true, bytes_received, objects_received, message }
}

/// What writing a commit reports to the caller.
#[derive(Clone, Debug)]
pub struct CommitResult {
    pub success: bool,
    pub commit_hash: String,
    pub message: String,
}

pub open spec fn empty_commit_message() -> Seq<char> {
    "Commit message cannot be empty"@
}

/// Whether a commit may be written under a message: not under a blank one.
pub fn check_commit_message(message: &str) -> (r: Result<(), String>)
    ensures
        r is Ok <==> !blank(message@),
        r is Err ==> r->Err_0@ == empty_commit_message(),
{
    if is_blank(message) {
        Err(String::from_str("Commit message cannot be empty"))
    } else {
        Ok(())
    }
}

/// Reports a commit written under `message` as `commit_hash`. Under a
/// blank message no commit may be written, whatever the hash: that is
/// refused.
pub fn create_commit(message: &str, commit_hash: &str) -> (r: Result<CommitResult, String>)
    ensures
        blank(message@) ==> r is Err && r->Err_0@ == empty_commit_message(),
        !blank(message@) ==> {
            &&& r is Ok
            &&& r->Ok_0.success
            &&& r->Ok_0.commit_hash@ == commit_hash@
            &&& r->Ok_0.message@ == "Commit created successfully"@
        },
{
    match check_commit_message(message) {
        Err(why) => Err(why),
        Ok(_) => Ok(
            CommitResult {
                success: true,
                commit_hash: String::from_str(commit_hash),
                message: String::from_str("Commit created successfully"),
            },
        ),
    }
}

/// A message of spaces only is blank, so no commit is written under it.
pub proof fn lemma_spaces_are_blank(message: Seq<char>)
    requires
        forall|i: int| 0 <= i < message.len() ==> message[i] == ' ',
    ensures
        blank(message),
{
}

/// What unstaging does to a file in the index.
#[derive(Clone, Copy, Debug, PartialEq, Eq, Structural)]
pub enum UnstageAction {
    /// Put the version of HEAD back into the index.
    ResetToHead,
    /// Take the file out of the index.
    RemoveFromIndex,
}

/// How a file is unstaged: reset where HEAD has it, removed where it is new.
pub fn unstage_action(in_head: bool) -> (action: UnstageAction)
    ensures
        action == (if in_head {
            UnstageAction::ResetToHead
        } else {
            UnstageAction::RemoveFromIndex
        }),
{
    if in_head {
        UnstageAction::ResetToHead
    } else {
        UnstageAction::RemoveFromIndex
    }
}

/// What discarding does to a file of the working directory.
#[derive(Clone, Copy, Debug, PartialEq, Eq, Structural)]
pub enum DiscardAction {
    /// Write the version of HEAD over the file.
    RestoreFromHead,
    /// Delete the file.
    Delete,
}

pub open spec fn discarded_message(path: Seq<char>) -> Seq<char> {
    "Discarded changes to "@ + path
}

pub open spec fn deleted_file_message(path: Seq<char>) -> Seq<char> {
    "Deleted new file "@ + path
}

pub open spec fn file_missing_message(path: Seq<char>) -> Seq<char> {
    "File not found: "@ + path
}

/// Decides how the changes to a file are discarded: a file that HEAD has is
/// restored from it; a new file is deleted; a file that is neither in HEAD
/// nor on disk is an error. `Ok` holds what to do and what to tell the caller
/// once it is done.
pub fn discard_file_changes(file_path: &str, in_head: bool, on_disk: bool) -> (r: Result<
    (DiscardAction, String),
    String,
>)
    ensures
        in_head ==> r is Ok && r->Ok_0.0 == DiscardAction::RestoreFromHead && r->Ok_0.1@
            == discarded_message(file_path@),
        !in_head && on_disk ==> r is Ok && r->Ok_0.0 == DiscardAction::Delete && r->Ok_0.1@
            == deleted_file_message(file_path@),
        !in_head && !on_disk ==> r is Err && r->Err_0@ == file_missing_message(file_path@),
{
    if in_head {
        let mut m = String::from_str("Discarded changes to ");
        m.append(file_path);
        Ok((DiscardAction::RestoreFromHead, m))
    } else if on_disk {
        let mut m = String::from_str("Deleted new file ");
        m.append(file_path);
        Ok((DiscardAction::Delete, m))
    } else {
        let mut m = String::from_str("File not found: ");
        m.append(file_path);
        Err(m)
    }
}

} // verus!
