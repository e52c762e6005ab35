//! The conflict model: one classification of three-way index conflicts,
//! shared by merge, rebase, pull and stash application.

use vstd::prelude::*;

verus! {

/// How the two sides of a three-way conflict disagree about a path.
#[derive(Clone, Copy, Debug, PartialEq, Eq, Structural)]
pub enum ConflictKind {
    /// Both sides carry a version of the path.
    Content,
    /// Only the local side carries a version.
    DeleteModify,
    /// Only the remote side carries a version.
    ModifyDelete,
    /// Neither side carries a version.
    Unknown,
}

impl ConflictKind {
    /// The kind of a conflict, from which sides are present.
    pub open spec fn of_sides(ours: bool, theirs: bool) -> ConflictKind {
        if ours && theirs {
            ConflictKind::Content
        } else if ours {
            ConflictKind::DeleteModify
        } else if theirs {
            ConflictKind::ModifyDelete
        } else {
            ConflictKind::Unknown
        }
    }

    /// The kind of a conflict, from which sides are present.
    pub fn classify(ours: bool, theirs: bool) -> (kind: ConflictKind)
        ensures
            kind == Self::of_sides(ours, theirs),
    {
        if ours && theirs {
            ConflictKind::Content
        } else if ours {
            ConflictKind::DeleteModify
        } else if theirs {
            ConflictKind::ModifyDelete
        } else {
            ConflictKind::Unknown
        }
    }

    /// The name under which a kind is reported.
    pub open spec fn label(self) -> Seq<char> {
        match self {
            ConflictKind::Content => "content"@,
            ConflictKind::DeleteModify => "delete/modify"@,
            ConflictKind::ModifyDelete => "modify/delete"@,
            ConflictKind::Unknown => "unknown"@,
        }
    }

    /// The name under which a kind is reported.
    pub fn as_str(self) -> (s: &'static str)
        ensures
            s@ == self.label(),
    {
        match self {
            ConflictKind::Content => "content",
            ConflictKind::DeleteModify => "delete/modify",
            ConflictKind::ModifyDelete => "modify/delete",
            ConflictKind::Unknown => "unknown",
        }
    }
}

/// One conflicting index entry: the path recorded on each side that is
/// present.
#[derive(Clone, Debug)]
pub struct ConflictSides {
    pub ancestor: Option<String>,
    pub ours: Option<String>,
    pub theirs: Option<String>,
}

/// What a `ConflictSides` holds, as mathematical values.
pub struct SidesModel {
    pub ancestor: Option<Seq<char>>,
    pub ours: Option<Seq<char>>,
    pub theirs: Option<Seq<char>>,
}

impl DeepView for ConflictSides {
    type V = SidesModel;

    open spec fn deep_view(&self) -> SidesModel {
        SidesModel {
            ancestor: self.ancestor.deep_view(),
            ours: self.ours.deep_view(),
            theirs: self.theirs.deep_view(),
        }
    }
}

/// A conflicting path and how its sides disagree.
#[derive(Clone, Debug)]
pub struct ConflictFile {
    pub path: String,
    pub conflict_type: ConflictKind,
}

/// What a `ConflictFile` holds, as mathematical values.
pub struct ConflictModel {
    pub path: Seq<char>,
    pub kind: ConflictKind,
}

impl DeepView for ConflictFile {
    type V = ConflictModel;

    open spec fn deep_view(&self) -> ConflictModel {
        ConflictModel { path: self.path@, kind: self.conflict_type }
    }
}

/// The path under which a conflict is reported: the local side's, else the
/// remote side's, else the ancestor's, else the word `unknown`.
pub open spec fn reported_path(sides: SidesModel) -> Seq<char> {
    match sides.ours {
        Some(p) => p,
        None => match sides.theirs {
            Some(p) => p,
            None => match sides.ancestor {
                Some(p) => p,
                None => "unknown"@,
            },
        },
    }
}

/// The conflict that an index entry stands for.
pub open spec fn conflict_of(sides: SidesModel) -> ConflictModel {
    ConflictModel {
        path: reported_path(sides),
        kind: ConflictKind::of_sides(sides.ours is Some, sides.theirs is Some),
    }
}

/// The conflict that an index entry stands for.
pub fn classify_conflict(sides: &ConflictSides) -> (file: ConflictFile)
    ensures
        file.deep_view() == conflict_of(sides.deep_view()),
{
    let kind = ConflictKind::classify(sides.ours.is_some(), sides.theirs.is_some());
    let path = match &sides.ours {
        Some(p) => p.clone(),
        None => match &sides.theirs {
            Some(p) => p.clone(),
            None => match &sides.ancestor {
                Some(p) => p.clone(),
                None => String::from_str("unknown"),
            },
        },
    };
    ConflictFile { path, conflict_type: kind }
}

/// The conflicts that a sequence of index entries stands for, in order.
pub open spec fn conflicts_of(entries: Seq<SidesModel>) -> Seq<ConflictModel> {
    entries.map_values(|sides: SidesModel| conflict_of(sides))
}

/// Every conflicting index entry, classified, in the order given.
pub fn collect_conflicts(entries: &Vec<ConflictSides>) -> (files: Vec<ConflictFile>)
    ensures
        files.deep_view() == conflicts_of(entries.deep_view()),
{
    let mut files: Vec<ConflictFile> = Vec::new();
    let mut i: usize = 0;
    while i < entries.len()
        invariant
            i <= entries@.len(),
            files@.len() == i,
            forall|j: int| 0 <= j < i ==> (#[trigger] files@[j]).deep_view() == conflict_of(entries@[j].deep_view()),
        decreases entries@.len() - i,
    {
        files.push(classify_conflict(&entries[i]));
        i += 1;
    }
    assert(files.deep_view() =~= conflicts_of(entries.deep_view()));
    files
}

/// A copy of a list of conflicts.
pub fn copy_conflicts(files: &Vec<ConflictFile>) -> (copy: Vec<ConflictFile>)
    ensures
        copy.deep_view() == files.deep_view(),
{
    let mut copy: Vec<ConflictFile> = Vec::new();
    let mut i: usize = 0;
    while i < files.len()
        invariant
            i <= files@.len(),
            copy@.len() == i,
            forall|j: int| 0 <= j < i ==> (#[trigger] copy@[j]).deep_view() == files@[j].deep_view(),
        decreases files@.len() - i,
    {
        copy.push(ConflictFile { path: files[i].path.clone(), conflict_type: files[i].conflict_type });
        i += 1;
    }
    assert(copy.deep_view() =~= files.deep_view());
    copy
}

} // verus!
