//! The commit graph as the caller sees it: commits decorated with the
//! branches and tags that point at them, and the commits a rebase would
//! take up.

use crate::oid::{names_object, parse_object_id};
use crate::rebase_plan::RebaseAction;
use crate::text::{contains, first_line, first_line_of, mentions, prefix, same_text, take_chars,
    trim, trimmed};
use vstd::prelude::*;

verus! {

/// A branch that points at a commit.
#[derive(Clone, Debug)]
pub struct BranchRef {
    pub name: String,
    pub is_remote: bool,
    pub is_current: bool,
}

/// A tag that points at a commit.
#[derive(Clone, Debug)]
pub struct TagRef {
    pub name: String,
    pub is_annotated: bool,
    pub is_remote: bool,
}

/// A branch as the store enumerates it: its name, its kind and the commit
/// it points at.
#[derive(Clone, Debug)]
pub struct BranchTip {
    pub oid: String,
    pub name: String,
    pub is_remote: bool,
}

/// A tag as the store enumerates it.
#[derive(Clone, Debug)]
pub struct TagTip {
    pub oid: String,
    pub name: String,
    pub is_annotated: bool,
}

/// A commit as the store gives it.
#[derive(Clone, Debug)]
pub struct CommitRecord {
    pub oid: String,
    pub message: Option<String>,
    pub author_name: Option<String>,
    pub author_email: Option<String>,
    pub timestamp: i64,
    pub parents: Vec<String>,
}

/// A commit as the caller sees it.
#[derive(Clone, Debug)]
pub struct Commit {
    pub hash: String,
    pub short_hash: String,
    pub message: String,
    pub author_name: String,
    pub author_email: String,
    pub timestamp: i64,
    pub parent_hashes: Vec<String>,
    pub branches: Vec<BranchRef>,
    pub tags: Vec<TagRef>,
}

/// What a `BranchRef` holds, as mathematical values.
pub struct BranchRefModel {
    pub name: Seq<char>,
    pub is_remote: bool,
    pub is_current: bool,
}

impl DeepView for BranchRef {
    type V = BranchRefModel;

    open spec fn deep_view(&self) -> BranchRefModel {
        BranchRefModel { name: self.name@, is_remote: self.is_remote, is_current: self.is_current }
    }
}

/// What a `TagRef` holds, as mathematical values.
pub struct TagRefModel {
    pub name: Seq<char>,
    pub is_annotated: bool,
    pub is_remote: bool,
}

impl DeepView for TagRef {
    type V = TagRefModel;

    open spec fn deep_view(&self) -> TagRefModel {
        TagRefModel { name: self.name@, is_annotated: self.is_annotated, is_remote: self.is_remote }
    }
}

/// The decoration that a branch gives the commit it points at. A local
/// branch is the current one where HEAD names it.
pub open spec fn branch_ref_of(tip: BranchTip, head_branch: Option<Seq<char>>) -> BranchRefModel {
    BranchRefModel {
        name: tip.name@,
        is_remote: tip.is_remote,
        is_current: !tip.is_remote && head_branch == Some(tip.name@),
    }
}

/// The decoration that a tag gives the commit it points at.
pub open spec fn tag_ref_of(tip: TagTip) -> TagRefModel {
    TagRefModel {
        name: tip.name@,
        is_annotated: tip.is_annotated,
        is_remote: mentions(tip.name@, "remotes/"@),
    }
}

/// The branches among the first `n` that point at the commit `oid`, in the
/// order the store gave them.
pub open spec fn branches_at(
    tips: Seq<BranchTip>,
    oid: Seq<char>,
    head_branch: Option<Seq<char>>,
    n: nat,
) -> Seq<BranchRefModel>
    decreases n,
{
    if n == 0 {
        Seq::empty()
    } else if tips[n - 1].oid@ == oid {
        branches_at(tips, oid, head_branch, (n - 1) as nat).push(
            branch_ref_of(tips[n - 1], head_branch),
        )
    } else {
        branches_at(tips, oid, head_branch, (n - 1) as nat)
    }
}

/// The tags among the first `n` that point at the commit `oid`, in the
/// order the store gave them.
pub open spec fn tags_at(tips: Seq<TagTip>, oid: Seq<char>, n: nat) -> Seq<TagRefModel>
    decreases n,
{
    if n == 0 {
        Seq::empty()
    } else if tips[n - 1].oid@ == oid {
        tags_at(tips, oid, (n - 1) as nat).push(tag_ref_of(tips[n - 1]))
    } else {
        tags_at(tips, oid, (n - 1) as nat)
    }
}

/// The branches that point at the commit `oid`.
pub fn branches_of(tips: &Vec<BranchTip>, oid: &str, head_branch: &Option<String>) -> (refs: Vec<
    BranchRef,
>)
    ensures
        refs.deep_view() == branches_at(tips@, oid@, head_branch.deep_view(), tips@.len()),
{
    let mut refs: Vec<BranchRef> = Vec::new();
    assert(refs.deep_view() =~= Seq::<BranchRefModel>::empty());
    let mut i: usize = 0;
    while i < tips.len()
        invariant
            i <= tips@.len(),
            refs.deep_view() == branches_at(tips@, oid@, head_branch.deep_view(), i as nat),
        decreases tips@.len() - i,
    {
        let tip = &tips[i];
        if same_text(tip.oid.as_str(), oid) {
            let ghost before = refs.deep_view();
            let named_by_head = match head_branch {
                Some(name) => same_text(name.as_str(), tip.name.as_str()),
                None => false,
            };
            let entry = BranchRef {
                name: tip.name.clone(),
                is_remote: tip.is_remote,
                is_current: !tip.is_remote && named_by_head,
            };
            refs.push(entry);
            assert(refs.deep_view() =~= before.push(
                branch_ref_of(tips@[i as int], head_branch.deep_view()),
            ));
        }
        i += 1;
    }
    refs
}

/// The tags that point at the commit `oid`.
pub fn tags_of(tips: &Vec<TagTip>, oid: &str) -> (refs: Vec<TagRef>)
    ensures
        refs.deep_view() == tags_at(tips@, oid@, tips@.len()),
{
    let mut refs: Vec<TagRef> = Vec::new();
    assert(refs.deep_view() =~= Seq::<TagRefModel>::empty());
    let mut i: usize = 0;
    while i < tips.len()
        invariant
            i <= tips@.len(),
            refs.deep_view() == tags_at(tips@, oid@, i as nat),
        decreases tips@.len() - i,
    {
        let tip = &tips[i];
        if same_text(tip.oid.as_str(), oid) {
            let ghost before = refs.deep_view();
            let entry = TagRef {
                name: tip.name.clone(),
                is_annotated: tip.is_annotated,
                is_remote: contains(tip.name.as_str(), "remotes/"),
            };
            refs.push(entry);
            assert(refs.deep_view() =~= before.push(tag_ref_of(tips@[i as int])));
        }
        i += 1;
    }
    refs
}

/// A text, or a placeholder where there is none.
pub open spec fn or_text(text: Option<String>, placeholder: Seq<char>) -> Seq<char> {
    match text {
        Some(t) => t@,
        None => placeholder,
    }
}

/// How many commits a listing shows: the caller's limit, one hundred where
/// none is given, and never more than there are.
pub open spec fn shown(limit: Option<usize>, available: nat) -> nat {
    let most: nat = match limit {
        Some(n) => n as nat,
        None => 100,
    };
    if available < most {
        available
    } else {
        most
    }
}

/// The commit is the record, decorated.
pub open spec fn decorated(
    commit: Commit,
    record: CommitRecord,
    branch_tips: Seq<BranchTip>,
    tag_tips: Seq<TagTip>,
    head_branch: Option<Seq<char>>,
) -> bool {
    &&& commit.hash@ == record.oid@
    &&& commit.short_hash@ == prefix(record.oid@, 7)
    &&& commit.message@ == trimmed(or_text(record.message, "(no message)"@))
    &&& commit.author_name@ == or_text(record.author_name, "Unknown"@)
    &&& commit.author_email@ == or_text(record.author_email, Seq::empty())
    &&& commit.timestamp == record.timestamp
    &&& commit.parent_hashes.deep_view() == record.parents.deep_view()
    &&& commit.branches.deep_view() == branches_at(
        branch_tips,
        record.oid@,
        head_branch,
        branch_tips.len(),
    )
    &&& commit.tags.deep_view() == tags_at(tag_tips, record.oid@, tag_tips.len())
}

fn copy_texts(list: &Vec<String>) -> (copy: Vec<String>)
    ensures
        copy.deep_view() == list.deep_view(),
{
    let mut copy: Vec<String> = Vec::new();
    let mut i: usize = 0;
    while i < list.len()
        invariant
            i <= list@.len(),
            copy@.len() == i,
            forall|j: int| 0 <= j < i ==> (#[trigger] copy@[j])@ == list@[j]@,
        decreases list@.len() - i,
    {
        copy.push(list[i].clone());
        i += 1;
    }
    assert(copy.deep_view() =~= list.deep_view());
    copy
}

/// The record at `a` is listed before the record at `b`: it has the later
/// author time, or the same and was discovered first.
pub open spec fn listed_first(records: Seq<CommitRecord>, a: int, b: int) -> bool {
    records[a].timestamp > records[b].timestamp || (records[a].timestamp == records[b].timestamp
        && a < b)
}

/// The record at `k` is the first that the store gave of its commit.
pub open spec fn first_seen(records: Seq<CommitRecord>, k: int) -> bool {
    forall|j: int| 0 <= j < k ==> (#[trigger] records[j]).oid@ != records[k].oid@
}

/// `order` names every commit once, by the first record that the store gave
/// of it: newest author time first, commits of the same time in the order
/// of their discovery.
pub open spec fn is_listing_order(order: Seq<usize>, records: Seq<CommitRecord>) -> bool {
    &&& forall|i: int|
        0 <= i < order.len() ==> (#[trigger] order[i]) < records.len() && first_seen(
            records,
            order[i] as int,
        )
    &&& forall|k: int|
        0 <= k < records.len() && first_seen(records, k) ==> #[trigger] order.contains(
            k as usize,
        )
    &&& forall|i: int, j: int|
        0 <= i < j < order.len() ==> listed_first(
            records,
            (#[trigger] order[i]) as int,
            (#[trigger] order[j]) as int,
        )
}

/// In a listing order the author times never rise, and no commit is named
/// twice.
pub proof fn lemma_listing_order(order: Seq<usize>, records: Seq<CommitRecord>, i: int, j: int)
    requires
        is_listing_order(order, records),
        0 <= i < j < order.len(),
    ensures
        records[order[i] as int].timestamp >= records[order[j] as int].timestamp,
        records[order[i] as int].oid@ != records[order[j] as int].oid@,
{
    let a = order[i] as int;
    let b = order[j] as int;
    assert(listed_first(records, a, b));
    assert(first_seen(records, a) && first_seen(records, b));
    if a < b {
        assert(records[a].oid@ != records[b].oid@);
    } else if b < a {
        assert(records[b].oid@ != records[a].oid@);
    }
}

/// Whether the record at `k` is the first that the store gave of its commit.
pub fn is_first_seen(records: &Vec<CommitRecord>, k: usize) -> (r: bool)
    requires
        k < records@.len(),
    ensures
        r == first_seen(records@, k as int),
{
    let mut j: usize = 0;
    while j < k
        invariant
            j <= k < records@.len(),
            forall|i: int| 0 <= i < j ==> (#[trigger] records@[i]).oid@ != records@[k as int].oid@,
        decreases k - j,
    {
        if same_text(records[j].oid.as_str(), records[k].oid.as_str()) {
            return false;
        }
        j += 1;
    }
    true
}

/// The order in which commits are listed: each commit once, newest author
/// time first, ties in the order of discovery.
pub fn newest_first(records: &Vec<CommitRecord>) -> (order: Vec<usize>)
    ensures
        is_listing_order(order@, records@),
        order@.len() <= records@.len(),
{
    let mut order: Vec<usize> = Vec::new();
    let mut k: usize = 0;
    while k < records.len()
        invariant
            k <= records@.len(),
            order@.len() <= k,
            forall|i: int|
                0 <= i < order@.len() ==> (#[trigger] order@[i]) < k && first_seen(
                    records@,
                    order@[i] as int,
                ),
            forall|x: int| 0 <= x < k && first_seen(records@, x) ==> #[trigger] order@.contains(
                x as usize,
            ),
            forall|i: int, j: int|
                0 <= i < j < order@.len() ==> listed_first(
                    records@,
                    (#[trigger] order@[i]) as int,
                    (#[trigger] order@[j]) as int,
                ),
        decreases records@.len() - k,
    {
        if is_first_seen(records, k) {
            let time = records[k].timestamp;
            let mut at: usize = 0;
            while at < order.len() && records[order[at]].timestamp >= time
                invariant
                    at <= order@.len(),
                    k < records@.len(),
                    time == records@[k as int].timestamp,
                    forall|i: int| 0 <= i < order@.len() ==> (#[trigger] order@[i]) < k,
                    forall|i: int|
                        0 <= i < at ==> records@[(#[trigger] order@[i]) as int].timestamp >= time,
                decreases order@.len() - at,
            {
                at += 1;
            }
            let ghost before = order@;
            order.insert(at, k);
            proof {
                let after = order@;
                assert forall|i: int, j: int| 0 <= i < j < after.len() implies listed_first(
                    records@,
                    (#[trigger] after[i]) as int,
                    (#[trigger] after[j]) as int,
                ) by {
                    if j == at {
                        assert(after[i] == before[i]);
                    } else if i == at {
                        assert(after[j] == before[j - 1]);
                        if j - 1 > at {
                            assert(listed_first(
                                records@,
                                before[at as int] as int,
                                before[j - 1] as int,
                            ));
                        }
                    } else if j < at {
                        assert(after[i] == before[i] && after[j] == before[j]);
                    } else if i < at {
                        assert(after[i] == before[i] && after[j] == before[j - 1]);
                    } else {
                        assert(after[i] == before[i - 1] && after[j] == before[j - 1]);
                    }
                }
                assert forall|i: int| 0 <= i < after.len() implies (#[trigger] after[i]) < k + 1
                    && first_seen(records@, after[i] as int) by {
                    if i < at {
                        assert(after[i] == before[i]);
                    } else if i > at {
                        assert(after[i] == before[i - 1]);
                    }
                }
                assert forall|x: int| 0 <= x < k + 1 && first_seen(records@, x) implies (
                #[trigger] after.contains(x as usize)) by {
                    if x == k {
                        assert(after[at as int] == k);
                    } else {
                        assert(before.contains(x as usize));
                        let w = choose|w: int| 0 <= w < before.len() && before[w] == x as usize;
                        if w < at {
                            assert(after[w] == before[w]);
                        } else {
                            assert(after[w + 1] == before[w]);
                        }
                    }
                }
            }
        }
        k += 1;
    }
    order
}

/// `commits` is the listing of `records` under `order`: as many of the
/// commits as are shown, each the record that `order` has at its place,
/// decorated.
pub open spec fn lists(
    commits: Seq<Commit>,
    records: Seq<CommitRecord>,
    order: Seq<usize>,
    branch_tips: Seq<BranchTip>,
    tag_tips: Seq<TagTip>,
    head_branch: Option<Seq<char>>,
    limit: Option<usize>,
) -> bool {
    &&& is_listing_order(order, records)
    &&& commits.len() == shown(limit, order.len())
    &&& forall|i: int|
        0 <= i < commits.len() ==> decorated(
            #[trigger] commits[i],
            records[order[i] as int],
            branch_tips,
            tag_tips,
            head_branch,
        )
}

/// Lists commits for display: the commits that the store found, each once,
/// newest author time first and commits of the same time in the order of
/// their discovery, cut at the limit, each with the branches and tags that
/// point at it.
pub fn get_commits(
    records: &Vec<CommitRecord>,
    branch_tips: &Vec<BranchTip>,
    tag_tips: &Vec<TagTip>,
    head_branch: &Option<String>,
    limit: Option<usize>,
) -> (commits: Vec<Commit>)
    ensures
        commits@.len() <= shown(limit, records@.len()),
        exists|order: Seq<usize>| #[trigger]
            lists(
                commits@,
                records@,
                order,
                branch_tips@,
                tag_tips@,
                head_branch.deep_view(),
                limit,
            ),
{
    let order = newest_first(records);
    let most: usize = match limit {
        Some(n) => n,
        None => 100,
    };
    let count: usize = if order.len() < most {
        order.len()
    } else {
        most
    };
    let mut commits: Vec<Commit> = Vec::new();
    let mut i: usize = 0;
    while i < count
        invariant
            i <= count <= order@.len(),
            is_listing_order(order@, records@),
            commits@.len() == i,
            forall|j: int|
                0 <= j < i ==> decorated(
                    #[trigger] commits@[j],
                    records@[order@[j] as int],
                    branch_tips@,
                    tag_tips@,
                    head_branch.deep_view(),
                ),
        decreases count - i,
    {
        assert(order@[i as int] < records@.len());
        let record = &records[order[i]];
        let message = match &record.message {
            Some(text) => trim(text.as_str()),
            None => trim("(no message)"),
        };
        let author_name = match &record.author_name {
            Some(text) => text.clone(),
            None => String::from_str("Unknown"),
        };
        let author_email = match &record.author_email {
            Some(text) => text.clone(),
            None => String::new(),
        };
        commits.push(
            Commit {
                hash: record.oid.clone(),
                short_hash: take_chars(record.oid.as_str(), 7),
                message,
                author_name,
                author_email,
                timestamp: record.timestamp,
                parent_hashes: copy_texts(&record.parents),
                branches: branches_of(branch_tips, record.oid.as_str(), head_branch),
                tags: tags_of(tag_tips, record.oid.as_str()),
            },
        );
        i += 1;
    }
    assert(lists(
        commits@,
        records@,
        order@,
        branch_tips@,
        tag_tips@,
        head_branch.deep_view(),
        limit,
    ));
    commits
}

/// A commit that a rebase would take up, with the action proposed for it.
#[derive(Clone, Debug)]
pub struct RebaseCommit {
    pub hash: String,
    pub short_hash: String,
    pub message: String,
    pub author: String,
    pub timestamp: i64,
    pub action: RebaseAction,
}

pub open spec fn invalid_base_hash_message(base: Seq<char>) -> Seq<char> {
    "Invalid base commit hash: "@ + base
}

pub open spec fn not_ancestor_message(base: Seq<char>) -> Seq<char> {
    "Base commit "@ + base + " is not an ancestor of HEAD. Cannot rebase."@
}

pub open spec fn nothing_to_rebase_message() -> Seq<char> {
    "No commits to rebase. HEAD and base are the same."@
}

/// The summary line of a commit message: its first line, or a placeholder
/// where there is no message or an empty one.
pub open spec fn summary_line(message: Option<String>) -> Seq<char> {
    match message {
        Some(text) => match first_line(text@) {
            Some(line) => line,
            None => "<no message>"@,
        },
        None => "<no message>"@,
    }
}

/// The commit at `i` of a rebase's list is the record that the walk gave at
/// the mirrored place, proposed as a pick.
pub open spec fn proposed(commit: RebaseCommit, record: CommitRecord) -> bool {
    &&& commit.hash@ == record.oid@
    &&& commit.short_hash@ == prefix(record.oid@, 7)
    &&& commit.message@ == summary_line(record.message)
    &&& commit.author@ == or_text(record.author_name, "<unknown>"@)
    &&& commit.timestamp == record.timestamp
    &&& commit.action == RebaseAction::Pick
}

/// Why no list of commits can be given for a rebase onto `base`, if none
/// can: the base is no object id, it is no ancestor of HEAD, or nothing lies
/// between the two.
pub open spec fn rebase_list_refusal(base: Seq<char>, is_ancestor: bool, walked: nat) -> Option<
    Seq<char>,
> {
    if !names_object(base) {
        Some(invalid_base_hash_message(base))
    } else if !is_ancestor {
        Some(not_ancestor_message(base))
    } else if walked == 0 {
        Some(nothing_to_rebase_message())
    } else {
        None
    }
}

/// Lists the commits that a rebase onto `base_commit` would take up, oldest
/// first, each proposed as a pick. `walked` is the store's walk from HEAD
/// back to the base, newest first.
pub fn get_rebase_commits(base_commit: &str, is_ancestor: bool, walked: &Vec<CommitRecord>) -> (r:
    Result<Vec<RebaseCommit>, String>)
    ensures
        match r {
            Ok(commits) => {
                &&& rebase_list_refusal(base_commit@, is_ancestor, walked@.len()) is None
                &&& commits@.len() == walked@.len()
                &&& forall|i: int|
                    0 <= i < commits@.len() ==> proposed(
                        #[trigger] commits@[i],
                        walked@[walked@.len() - 1 - i],
                    )
            },
            Err(message) => rebase_list_refusal(base_commit@, is_ancestor, walked@.len()) == Some(
                message@,
            ),
        },
{
    if parse_object_id(base_commit).is_none() {
        let mut m = String::from_str("Invalid base commit hash: ");
        m.append(base_commit);
        return Err(m);
    }
    if !is_ancestor {
        let mut m = String::from_str("Base commit ");
        m.append(base_commit);
        m.append(" is not an ancestor of HEAD. Cannot rebase.");
        return Err(m);
    }
    let total: usize = walked.len();
    if total == 0 {
        return Err(String::from_str("No commits to rebase. HEAD and base are the same."));
    }
    let mut commits: Vec<RebaseCommit> = Vec::new();
    let mut i: usize = 0;
    while i < total
        invariant
            i <= total == walked@.len(),
            commits@.len() == i,
            forall|j: int|
                0 <= j < i ==> proposed(#[trigger] commits@[j], walked@[walked@.len() - 1 - j]),
        decreases total - i,
    {
        let record = &walked[total - 1 - i];
        let message = match &record.message {
            Some(text) => match first_line_of(text.as_str()) {
                Some(line) => line,
                None => String::from_str("<no message>"),
            },
            None => String::from_str("<no message>"),
        };
        let author = match &record.author_name {
            Some(text) => text.clone(),
            None => String::from_str("<unknown>"),
        };
        commits.push(
            RebaseCommit {
                hash: record.oid.clone(),
                short_hash: take_chars(record.oid.as_str(), 7),
                message,
                author,
                timestamp: record.timestamp,
                action: RebaseAction::Pick,
            },
        );
        i += 1;
    }
    Ok(commits)
}

} // verus!
