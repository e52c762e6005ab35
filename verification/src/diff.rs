//! What changed between two trees: the files a commit or a stash touches,
//! and the patch text of one file.

use crate::text::{append_decimal, decimal, push_char, same_text};
use vstd::prelude::*;

verus! {

/// How a file differs between two trees.
#[derive(Clone, Copy, Debug, PartialEq, Eq, Structural)]
pub enum DeltaKind {
    Added,
    Deleted,
    Modified,
    Renamed,
    Copied,
    /// Any other difference.
    Other,
}

impl DeltaKind {
    /// The name under which a difference is reported.
    pub open spec fn label(self) -> Seq<char> {
        match self {
            DeltaKind::Added => "added"@,
            DeltaKind::Deleted => "deleted"@,
            DeltaKind::Modified => "modified"@,
            DeltaKind::Renamed => "renamed"@,
            DeltaKind::Copied => "copied"@,
            DeltaKind::Other => "unknown"@,
        }
    }

    /// The name under which a difference is reported.
    pub fn as_str(self) -> (s: &'static str)
        ensures
            s@ == self.label(),
    {
        match self {
            DeltaKind::Added => "added",
            DeltaKind::Deleted => "deleted",
            DeltaKind::Modified => "modified",
            DeltaKind::Renamed => "renamed",
            DeltaKind::Copied => "copied",
            DeltaKind::Other => "unknown",
        }
    }
}

/// One difference, as the store gives it: the path on each side where the
/// file exists there, and the kind of difference.
#[derive(Clone, Debug)]
pub struct DeltaRecord {
    pub new_path: Option<String>,
    pub old_path: Option<String>,
    pub kind: DeltaKind,
}

/// One changed file, as the caller sees it.
#[derive(Clone, Debug)]
pub struct FileChange {
    pub path: String,
    pub status: DeltaKind,
    pub insertions: u32,
    pub deletions: u32,
}

/// What a `FileChange` holds, as mathematical values.
pub struct ChangeModel {
    pub path: Seq<char>,
    pub status: DeltaKind,
    pub insertions: nat,
    pub deletions: nat,
}

impl DeepView for FileChange {
    type V = ChangeModel;

    open spec fn deep_view(&self) -> ChangeModel {
        ChangeModel {
            path: self.path@,
            status: self.status,
            insertions: self.insertions as nat,
            deletions: self.deletions as nat,
        }
    }
}

/// The path under which a difference is reported: the new side's, else the
/// old side's, else `fallback`.
pub open spec fn delta_path(delta: DeltaRecord, fallback: Seq<char>) -> Seq<char> {
    match delta.new_path {
        Some(p) => p@,
        None => match delta.old_path {
            Some(p) => p@,
            None => fallback,
        },
    }
}

/// The changed file that a difference stands for. Line counts are not
/// computed: they are reported as zero.
pub open spec fn change_of(delta: DeltaRecord) -> ChangeModel {
    ChangeModel {
        path: delta_path(delta, "unknown"@),
        status: delta.kind,
        insertions: 0,
        deletions: 0,
    }
}

/// The changed files that a list of differences stands for, in order: what
/// a commit changes against its first parent, or a stash against the commit
/// it was made on.
pub fn file_changes(deltas: &Vec<DeltaRecord>) -> (changes: Vec<FileChange>)
    ensures
        changes@.len() == deltas@.len(),
        forall|i: int|
            0 <= i < deltas@.len() ==> (#[trigger] changes@[i]).deep_view() == change_of(
                deltas@[i],
            ),
{
    let mut changes: Vec<FileChange> = Vec::new();
    let mut i: usize = 0;
    while i < deltas.len()
        invariant
            i <= deltas@.len(),
            changes@.len() == i,
            forall|j: int|
                0 <= j < i ==> (#[trigger] changes@[j]).deep_view() == change_of(deltas@[j]),
        decreases deltas@.len() - i,
    {
        let delta = &deltas[i];
        let path = match &delta.new_path {
            Some(p) => p.clone(),
            None => match &delta.old_path {
                Some(p) => p.clone(),
                None => String::from_str("unknown"),
            },
        };
        changes.push(FileChange { path, status: delta.kind, insertions: 0, deletions: 0 });
        i += 1;
    }
    changes
}

/// The name by which the stash at `index` is looked up.
pub open spec fn stash_revision(index: nat) -> Seq<char> {
    "stash@{"@ + decimal(index) + "}"@
}

/// The name by which the stash at `index` is looked up.
pub fn stash_revision_name(index: usize) -> (name: String)
    ensures
        name@ == stash_revision(index as nat),
{
    let mut name = String::from_str("stash@{");
    append_decimal(&mut name, index);
    name.append("}");
    name
}

/// One line of a patch: the file it belongs to, its origin marker and its
/// text.
#[derive(Clone, Debug)]
pub struct DiffLine {
    pub path: String,
    pub origin: char,
    pub content: String,
}

/// A line of the patch body: an addition, a deletion or context.
pub open spec fn body_origin(origin: char) -> bool {
    origin == '+' || origin == '-' || origin == ' '
}

/// A patch line as it is written out: body lines behind their marker,
/// header lines as they are.
pub open spec fn rendered(line: DiffLine) -> Seq<char> {
    if body_origin(line.origin) {
        seq![line.origin] + line.content@
    } else {
        line.content@
    }
}

/// The patch text of the file `path` among the first `n` lines.
pub open spec fn patch_text(lines: Seq<DiffLine>, path: Seq<char>, n: nat) -> Seq<char>
    decreases n,
{
    if n == 0 {
        Seq::empty()
    } else if lines[n - 1].path@ == path {
        patch_text(lines, path, (n - 1) as nat) + rendered(lines[n - 1])
    } else {
        patch_text(lines, path, (n - 1) as nat)
    }
}

/// Some line of the patch belongs to the file `path`.
pub open spec fn touches(lines: Seq<DiffLine>, path: Seq<char>) -> bool {
    exists|i: int| 0 <= i < lines.len() && (#[trigger] lines[i]).path@ == path
}

pub open spec fn file_not_in_commit_message(path: Seq<char>) -> Seq<char> {
    "File not found in commit: "@ + path
}

/// The patch of one file out of the patch of a commit: the lines that belong
/// to it, in order; an error where none does.
pub fn get_file_diff(file_path: &str, lines: &Vec<DiffLine>) -> (r: Result<String, String>)
    ensures
        r is Ok <==> touches(lines@, file_path@),
        r is Ok ==> r->Ok_0@ == patch_text(lines@, file_path@, lines@.len()),
        r is Err ==> r->Err_0@ == file_not_in_commit_message(file_path@),
{
    let mut out = String::new();
    let mut found = false;
    let mut i: usize = 0;
    while i < lines.len()
        invariant
            i <= lines@.len(),
            out@ == patch_text(lines@, file_path@, i as nat),
            found <==> exists|j: int| 0 <= j < i && (#[trigger] lines@[j]).path@ == file_path@,
        decreases lines@.len() - i,
    {
        let line = &lines[i];
        let ghost before = out@;
        if same_text(line.path.as_str(), file_path) {
            found = true;
            if line.origin == '+' || line.origin == '-' || line.origin == ' ' {
                push_char(&mut out, line.origin);
            }
            out.append(line.content.as_str());
            assert(out@ =~= before + rendered(lines@[i as int]));
        }
        i += 1;
    }
    if found {
        Ok(out)
    } else {
        let mut message = String::from_str("File not found in commit: ");
        message.append(file_path);
        Err(message)
    }
}

} // verus!
