//! The state of the working directory and the index, as the store's status
//! flags give it, and the cleanliness checks that every history-mutating
//! command makes before it acts.

use vstd::prelude::*;

verus! {

pub const INDEX_NEW: u32 = 0x1;

pub const INDEX_MODIFIED: u32 = 0x2;

pub const INDEX_DELETED: u32 = 0x4;

pub const INDEX_RENAMED: u32 = 0x8;

pub const WT_NEW: u32 = 0x80;

pub const WT_MODIFIED: u32 = 0x100;

pub const WT_DELETED: u32 = 0x200;

pub const WT_RENAMED: u32 = 0x800;

pub const CONFLICTED: u32 = 0x8000;

/// Whether the status flags `bits` hold the flag `mask`.
pub open spec fn flag_set(bits: u32, mask: u32) -> bool {
    bits & mask != 0
}

/// `git2::Status::is_index_new` on the flags `bits`: whether the flag
/// `INDEX_NEW` (bit 0) is set.
#[verifier::external_body]
fn is_index_new(bits: u32) -> (r: bool)
    ensures
        r == flag_set(bits, INDEX_NEW),
{
    git2::Status::from_bits_truncate(bits).is_index_new()
}

/// `git2::Status::is_index_modified` on the flags `bits`: whether the flag
/// `INDEX_MODIFIED` (bit 1) is set.
#[verifier::external_body]
fn is_index_modified(bits: u32) -> (r: bool)
    ensures
        r == flag_set(bits, INDEX_MODIFIED),
{
    git2::Status::from_bits_truncate(bits).is_index_modified()
}

/// `git2::Status::is_index_deleted` on the flags `bits`: whether the flag
/// `INDEX_DELETED` (bit 2) is set.
#[verifier::external_body]
fn is_index_deleted(bits: u32) -> (r: bool)
    ensures
        r == flag_set(bits, INDEX_DELETED),
{
    git2::Status::from_bits_truncate(bits).is_index_deleted()
}

/// `git2::Status::is_index_renamed` on the flags `bits`: whether the flag
/// `INDEX_RENAMED` (bit 3) is set.
#[verifier::external_body]
fn is_index_renamed(bits: u32) -> (r: bool)
    ensures
        r == flag_set(bits, INDEX_RENAMED),
{
    git2::Status::from_bits_truncate(bits).is_index_renamed()
}

/// `git2::Status::is_wt_new` on the flags `bits`: whether the flag `WT_NEW`
/// (bit 7) is set.
#[verifier::external_body]
fn is_wt_new(bits: u32) -> (r: bool)
    ensures
        r == flag_set(bits, WT_NEW),
{
    git2::Status::from_bits_truncate(bits).is_wt_new()
}

/// `git2::Status::is_wt_modified` on the flags `bits`: whether the flag
/// `WT_MODIFIED` (bit 8) is set.
#[verifier::external_body]
fn is_wt_modified(bits: u32) -> (r: bool)
    ensures
        r == flag_set(bits, WT_MODIFIED),
{
    git2::Status::from_bits_truncate(bits).is_wt_modified()
}

/// `git2::Status::is_wt_deleted` on the flags `bits`: whether the flag
/// `WT_DELETED` (bit 9) is set.
#[verifier::external_body]
fn is_wt_deleted(bits: u32) -> (r: bool)
    ensures
        r == flag_set(bits, WT_DELETED),
{
    git2::Status::from_bits_truncate(bits).is_wt_deleted()
}

/// `git2::Status::is_wt_renamed` on the flags `bits`: whether the flag
/// `WT_RENAMED` (bit 11) is set.
#[verifier::external_body]
fn is_wt_renamed(bits: u32) -> (r: bool)
    ensures
        r == flag_set(bits, WT_RENAMED),
{
    git2::Status::from_bits_truncate(bits).is_wt_renamed()
}

/// `git2::Status::is_conflicted` on the flags `bits`: whether the flag
/// `CONFLICTED` (bit 15) is set.
#[verifier::external_body]
fn is_conflicted(bits: u32) -> (r: bool)
    ensures
        r == flag_set(bits, CONFLICTED),
{
    git2::Status::from_bits_truncate(bits).is_conflicted()
}

/// One entry of the store's status list: a path and its status flags.
#[derive(Clone, Debug)]
pub struct StatusEntry {
    pub path: String,
    pub bits: u32,
}

/// How a file differs.
#[derive(Clone, Copy, Debug, PartialEq, Eq, Structural)]
pub enum ChangeKind {
    Added,
    Modified,
    Deleted,
    Renamed,
    Conflicted,
}

impl ChangeKind {
    /// The name under which a change is reported.
    pub open spec fn label(self) -> Seq<char> {
        match self {
            ChangeKind::Added => "added"@,
            ChangeKind::Modified => "modified"@,
            ChangeKind::Deleted => "deleted"@,
            ChangeKind::Renamed => "renamed"@,
            ChangeKind::Conflicted => "conflicted"@,
        }
    }

    /// The name under which a change is reported.
    pub fn as_str(self) -> (s: &'static str)
        ensures
            s@ == self.label(),
    {
        match self {
            ChangeKind::Added => "added",
            ChangeKind::Modified => "modified",
            ChangeKind::Deleted => "deleted",
            ChangeKind::Renamed => "renamed",
            ChangeKind::Conflicted => "conflicted",
        }
    }
}

/// The working tree differs from the index at this file: it is new,
/// modified or deleted there.
pub open spec fn worktree_changed(bits: u32) -> bool {
    flag_set(bits, WT_MODIFIED) || flag_set(bits, WT_NEW) || flag_set(bits, WT_DELETED)
}

/// The index differs from HEAD at this file: it is new, modified or deleted
/// there.
pub open spec fn index_changed(bits: u32) -> bool {
    flag_set(bits, INDEX_NEW) || flag_set(bits, INDEX_MODIFIED) || flag_set(bits, INDEX_DELETED)
}

/// How the index differs from HEAD at a file, if it does.
pub open spec fn staged_change(bits: u32) -> Option<ChangeKind> {
    if flag_set(bits, INDEX_NEW) {
        Some(ChangeKind::Added)
    } else if flag_set(bits, INDEX_MODIFIED) {
        Some(ChangeKind::Modified)
    } else if flag_set(bits, INDEX_DELETED) {
        Some(ChangeKind::Deleted)
    } else if flag_set(bits, INDEX_RENAMED) {
        Some(ChangeKind::Renamed)
    } else {
        None
    }
}

/// How the working tree differs from the index at a file, if it does.
pub open spec fn unstaged_change(bits: u32) -> Option<ChangeKind> {
    if flag_set(bits, WT_NEW) {
        Some(ChangeKind::Added)
    } else if flag_set(bits, WT_MODIFIED) {
        Some(ChangeKind::Modified)
    } else if flag_set(bits, WT_DELETED) {
        Some(ChangeKind::Deleted)
    } else if flag_set(bits, WT_RENAMED) {
        Some(ChangeKind::Renamed)
    } else {
        None
    }
}

/// Whether the working tree differs from the index at this file.
pub fn is_worktree_changed(bits: u32) -> (r: bool)
    ensures
        r == worktree_changed(bits),
{
    is_wt_modified(bits) || is_wt_new(bits) || is_wt_deleted(bits)
}

/// Whether the index differs from HEAD at this file.
pub fn is_index_changed(bits: u32) -> (r: bool)
    ensures
        r == index_changed(bits),
{
    is_index_new(bits) || is_index_modified(bits) || is_index_deleted(bits)
}

/// How the index differs from HEAD at a file, if it does.
pub fn staged_change_of(bits: u32) -> (r: Option<ChangeKind>)
    ensures
        r == staged_change(bits),
{
    if is_index_new(bits) {
        Some(ChangeKind::Added)
    } else if is_index_modified(bits) {
        Some(ChangeKind::Modified)
    } else if is_index_deleted(bits) {
        Some(ChangeKind::Deleted)
    } else if is_index_renamed(bits) {
        Some(ChangeKind::Renamed)
    } else {
        None
    }
}

/// How the working tree differs from the index at a file, if it does.
pub fn unstaged_change_of(bits: u32) -> (r: Option<ChangeKind>)
    ensures
        r == unstaged_change(bits),
{
    if is_wt_new(bits) {
        Some(ChangeKind::Added)
    } else if is_wt_modified(bits) {
        Some(ChangeKind::Modified)
    } else if is_wt_deleted(bits) {
        Some(ChangeKind::Deleted)
    } else if is_wt_renamed(bits) {
        Some(ChangeKind::Renamed)
    } else {
        None
    }
}

/// Some file is new, modified or deleted, in the index or in the working
/// tree.
pub open spec fn uncommitted_changes(entries: Seq<StatusEntry>) -> bool {
    exists|i: int|
        0 <= i < entries.len() && (index_changed(#[trigger] entries[i].bits) || worktree_changed(
            entries[i].bits,
        ))
}

/// Whether anything is uncommitted, in the index or in the working tree:
/// what a rebase, a pull, the application of a stash and a branch switch
/// refuse to start on, and what a new stash needs.
pub fn has_uncommitted_changes(entries: &Vec<StatusEntry>) -> (r: bool)
    ensures
        r == uncommitted_changes(entries@),
{
    let mut i: usize = 0;
    while i < entries.len()
        invariant
            i <= entries@.len(),
            forall|j: int|
                0 <= j < i ==> !(index_changed(#[trigger] entries@[j].bits) || worktree_changed(
                    entries@[j].bits,
                )),
        decreases entries@.len() - i,
    {
        if is_index_changed(entries[i].bits) || is_worktree_changed(entries[i].bits) {
            return true;
        }
        i += 1;
    }
    false
}

/// A file of the working directory and how it differs.
#[derive(Clone, Debug)]
pub struct WorkingDirectoryFile {
    pub path: String,
    pub status: ChangeKind,
    pub is_staged: bool,
}

/// What a `WorkingDirectoryFile` holds, as mathematical values.
pub struct FileModel {
    pub path: Seq<char>,
    pub status: ChangeKind,
    pub is_staged: bool,
}

impl DeepView for WorkingDirectoryFile {
    type V = FileModel;

    open spec fn deep_view(&self) -> FileModel {
        FileModel { path: self.path@, status: self.status, is_staged: self.is_staged }
    }
}

/// The files that differ, staged and unstaged.
#[derive(Clone, Debug)]
pub struct WorkingDirectoryStatus {
    pub staged: Vec<WorkingDirectoryFile>,
    pub unstaged: Vec<WorkingDirectoryFile>,
}

/// The staged files among the first `n` entries: each entry whose index
/// differs from HEAD, in order.
pub open spec fn staged_files(entries: Seq<StatusEntry>, n: nat) -> Seq<FileModel>
    decreases n,
{
    if n == 0 {
        Seq::empty()
    } else {
        let rest = staged_files(entries, (n - 1) as nat);
        match staged_change(entries[n - 1].bits) {
            Some(kind) => rest.push(
                FileModel { path: entries[n - 1].path@, status: kind, is_staged: true },
            ),
            None => rest,
        }
    }
}

/// What one entry adds to the unstaged files: its difference between
/// working tree and index, if any, then its conflict, if it has one.
pub open spec fn unstaged_of(entry: StatusEntry) -> Seq<FileModel> {
    let changed = match unstaged_change(entry.bits) {
        Some(kind) => seq![FileModel { path: entry.path@, status: kind, is_staged: false }],
        None => Seq::empty(),
    };
    if flag_set(entry.bits, CONFLICTED) {
        changed.push(
            FileModel { path: entry.path@, status: ChangeKind::Conflicted, is_staged: false },
        )
    } else {
        changed
    }
}

/// The unstaged files among the first `n` entries, in order.
pub open spec fn unstaged_files(entries: Seq<StatusEntry>, n: nat) -> Seq<FileModel>
    decreases n,
{
    if n == 0 {
        Seq::empty()
    } else {
        unstaged_files(entries, (n - 1) as nat) + unstaged_of(entries[n - 1])
    }
}

fn push_file(list: &mut Vec<WorkingDirectoryFile>, path: &String, status: ChangeKind, staged: bool)
    ensures
        final(list).deep_view() == old(list).deep_view().push(
            FileModel { path: path@, status, is_staged: staged },
        ),
{
    list.push(WorkingDirectoryFile { path: path.clone(), status, is_staged: staged });
    assert(list.deep_view() =~= old(list).deep_view().push(
        FileModel { path: path@, status, is_staged: staged },
    ));
}

/// Sorts the store's status list into what is staged and what is not.
pub fn get_working_directory_status(entries: &Vec<StatusEntry>) -> (r: WorkingDirectoryStatus)
    ensures
        r.staged.deep_view() == staged_files(entries@, entries@.len()),
        r.unstaged.deep_view() == unstaged_files(entries@, entries@.len()),
{
    let mut staged: Vec<WorkingDirectoryFile> = Vec::new();
    let mut unstaged: Vec<WorkingDirectoryFile> = Vec::new();
    assert(staged.deep_view() =~= Seq::<FileModel>::empty());
    assert(unstaged.deep_view() =~= Seq::<FileModel>::empty());
    let mut i: usize = 0;
    while i < entries.len()
        invariant
            i <= entries@.len(),
            staged.deep_view() == staged_files(entries@, i as nat),
            unstaged.deep_view() == unstaged_files(entries@, i as nat),
        decreases entries@.len() - i,
    {
        let entry = &entries[i];
        let ghost before = unstaged.deep_view();
        match staged_change_of(entry.bits) {
            Some(kind) => {
                push_file(&mut staged, &entry.path, kind, true);
            },
            None => {},
        }
        match unstaged_change_of(entry.bits) {
            Some(kind) => {
                push_file(&mut unstaged, &entry.path, kind, false);
            },
            None => {},
        }
        if is_conflicted(entry.bits) {
            push_file(&mut unstaged, &entry.path, ChangeKind::Conflicted, false);
        }
        assert(unstaged.deep_view() =~= before + unstaged_of(entries@[i as int]));
        i += 1;
    }
    WorkingDirectoryStatus { staged, unstaged }
}

} // verus!
