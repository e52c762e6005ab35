//! The list of branches as the caller sees it: the current branch first,
//! then the local ones, then the remote ones, each group by name.

use crate::text::{chars_of, first_line, first_line_of, same_text};
use vstd::prelude::*;
use vstd::seq_lib::{to_multiset_build, to_multiset_insert};

verus! {

/// A branch, as the caller sees it.
#[derive(Clone, Debug)]
pub struct Branch {
    pub name: String,
    pub full_name: String,
    pub is_remote: bool,
    pub is_current: bool,
    pub commit_hash: String,
    pub commit_message: String,
    pub last_commit_date: i64,
    pub upstream: Option<String>,
}

/// What a `Branch` holds, as mathematical values.
pub struct BranchModel {
    pub name: Seq<char>,
    pub full_name: Seq<char>,
    pub is_remote: bool,
    pub is_current: bool,
    pub commit_hash: Seq<char>,
    pub commit_message: Seq<char>,
    pub last_commit_date: int,
    pub upstream: Option<Seq<char>>,
}

impl DeepView for Branch {
    type V = BranchModel;

    open spec fn deep_view(&self) -> BranchModel {
        BranchModel {
            name: self.name@,
            full_name: self.full_name@,
            is_remote: self.is_remote,
            is_current: self.is_current,
            commit_hash: self.commit_hash@,
            commit_message: self.commit_message@,
            last_commit_date: self.last_commit_date as int,
            upstream: self.upstream.deep_view(),
        }
    }
}

/// A branch, as the store enumerates it.
#[derive(Clone, Debug)]
pub struct BranchRecord {
    /// The short name, where it is valid text.
    pub name: Option<String>,
    /// The full reference name, where it is valid text.
    pub full_name: Option<String>,
    pub is_remote: bool,
    pub commit_hash: String,
    pub commit_message: Option<String>,
    pub last_commit_date: i64,
    /// The name of the upstream branch, where one is configured.
    pub upstream: Option<String>,
}

/// `a` stands before `b` or equals it, character by character; a text
/// stands before every text it begins.
pub open spec fn text_le(a: Seq<char>, b: Seq<char>) -> bool
    decreases a.len(),
{
    if a.len() == 0 {
        true
    } else if b.len() == 0 {
        false
    } else if a[0] != b[0] {
        a[0] < b[0]
    } else {
        text_le(a.drop_first(), b.drop_first())
    }
}

/// Of any two texts one stands before the other or equals it.
pub proof fn lemma_text_le_total(a: Seq<char>, b: Seq<char>)
    ensures
        text_le(a, b) || text_le(b, a),
    decreases a.len(),
{
    if a.len() > 0 && b.len() > 0 && a[0] == b[0] {
        lemma_text_le_total(a.drop_first(), b.drop_first());
    }
}

/// The order of texts is transitive.
pub proof fn lemma_text_le_transitive(a: Seq<char>, b: Seq<char>, c: Seq<char>)
    requires
        text_le(a, b),
        text_le(b, c),
    ensures
        text_le(a, c),
    decreases a.len(),
{
    if a.len() > 0 && b.len() > 0 && c.len() > 0 && a[0] == b[0] && b[0] == c[0] {
        lemma_text_le_transitive(a.drop_first(), b.drop_first(), c.drop_first());
    }
}

/// Whether `a` stands before `b` or equals it.
pub fn text_at_most(a: &str, b: &str) -> (r: bool)
    ensures
        r == text_le(a@, b@),
{
    let x = chars_of(a);
    let y = chars_of(b);
    let mut i: usize = 0;
    assert(x@.subrange(0, x@.len() as int) =~= x@);
    assert(y@.subrange(0, y@.len() as int) =~= y@);
    while i < x.len() && i < y.len() && x[i] == y[i]
        invariant
            i <= x@.len(),
            i <= y@.len(),
            text_le(x@, y@) == text_le(
                x@.subrange(i as int, x@.len() as int),
                y@.subrange(i as int, y@.len() as int),
            ),
        decreases x@.len() - i,
    {
        proof {
            let p = x@.subrange(i as int, x@.len() as int);
            let q = y@.subrange(i as int, y@.len() as int);
            assert(p[0] == q[0]);
            assert(p.drop_first() =~= x@.subrange(i + 1, x@.len() as int));
            assert(q.drop_first() =~= y@.subrange(i + 1, y@.len() as int));
        }
        i += 1;
    }
    proof {
        let p = x@.subrange(i as int, x@.len() as int);
        let q = y@.subrange(i as int, y@.len() as int);
        if i < x@.len() && i < y@.len() {
            assert(p[0] == x@[i as int] && q[0] == y@[i as int]);
        }
    }
    if i == x.len() {
        true
    } else if i == y.len() {
        false
    } else {
        x[i] < y[i]
    }
}

/// `a` is listed before `b`, or the two may stand in either order: the
/// current branch before the others, local branches before remote ones, and
/// within each group by name.
pub open spec fn listed_before(a: BranchModel, b: BranchModel) -> bool {
    if a.is_current != b.is_current {
        a.is_current
    } else if a.is_remote != b.is_remote {
        !a.is_remote
    } else {
        text_le(a.name, b.name)
    }
}

/// The order of the list is total and transitive.
pub proof fn lemma_listed_order(a: BranchModel, b: BranchModel, c: BranchModel)
    ensures
        listed_before(a, b) || listed_before(b, a),
        listed_before(a, b) && listed_before(b, c) ==> listed_before(a, c),
{
    lemma_text_le_total(a.name, b.name);
    if listed_before(a, b) && listed_before(b, c) {
        if a.is_current == b.is_current && b.is_current == c.is_current && a.is_remote
            == b.is_remote && b.is_remote == c.is_remote {
            lemma_text_le_transitive(a.name, b.name, c.name);
        }
    }
}

fn stands_before(a: &Branch, b: &Branch) -> (r: bool)
    ensures
        r == listed_before(a.deep_view(), b.deep_view()),
{
    if a.is_current != b.is_current {
        a.is_current
    } else if a.is_remote != b.is_remote {
        !a.is_remote
    } else {
        text_at_most(a.name.as_str(), b.name.as_str())
    }
}

/// Every branch of the list stands before those that follow it.
pub open spec fn ordered(list: Seq<BranchModel>) -> bool {
    forall|i: int, j: int| 0 <= i < j < list.len() ==> listed_before(list[i], list[j])
}

/// Puts a branch into an ordered list, behind the branches it may not
/// precede.
pub fn insert_ordered(list: &mut Vec<Branch>, branch: Branch)
    requires
        ordered(old(list).deep_view()),
        old(list)@.len() < usize::MAX,
    ensures
        ordered(final(list).deep_view()),
        final(list).deep_view().to_multiset() == old(list).deep_view().to_multiset().insert(
            branch.deep_view(),
        ),
        final(list)@.len() == old(list)@.len() + 1,
{
    let ghost before = list.deep_view();
    let ghost x = branch.deep_view();
    let mut at: usize = 0;
    while at < list.len() && stands_before(&list[at], &branch)
        invariant
            at <= list@.len(),
            *list == *old(list),
            before == list.deep_view(),
            x == branch.deep_view(),
            forall|k: int| 0 <= k < at ==> listed_before(before[k], x),
        decreases list@.len() - at,
    {
        assert(before[at as int] == list@[at as int].deep_view());
        at += 1;
    }
    proof {
        if at < list@.len() {
            assert(before[at as int] == list@[at as int].deep_view());
        }
    }
    list.insert(at, branch);
    proof {
        let after = list.deep_view();
        assert(after =~= before.insert(at as int, x));
        to_multiset_insert(before, at as int, x);
        assert forall|i: int, j: int| 0 <= i < j < after.len() implies listed_before(
            after[i],
            after[j],
        ) by {
            if j == at {
            } else if i == at {
                lemma_listed_order(x, before[at as int], x);
                lemma_listed_order(x, before[at as int], before[j - 1]);
                if j - 1 > at {
                    assert(listed_before(before[at as int], before[j - 1]));
                }
            } else if i < at && j < at {
                assert(listed_before(before[i], before[j]));
            } else if i < at {
                assert(listed_before(before[i], before[j - 1]));
            } else {
                assert(listed_before(before[i - 1], before[j - 1]));
            }
        }
    }
}

/// The branch that a record of the store stands for. A local branch is the
/// current one where HEAD names it.
pub open spec fn branch_of(record: BranchRecord, head_branch: Option<Seq<char>>) -> BranchModel {
    let name = match record.name {
        Some(n) => n@,
        None => "unknown"@,
    };
    BranchModel {
        name,
        full_name: match record.full_name {
            Some(n) => n@,
            None => "unknown"@,
        },
        is_remote: record.is_remote,
        is_current: !record.is_remote && head_branch == Some(name),
        commit_hash: record.commit_hash@,
        commit_message: match record.commit_message {
            Some(text) => match first_line(text@) {
                Some(line) => line,
                None => "(no message)"@,
            },
            None => "(no message)"@,
        },
        last_commit_date: record.last_commit_date as int,
        upstream: if record.is_remote {
            None
        } else {
            record.upstream.deep_view()
        },
    }
}

/// The branches that the store's records stand for, in the store's order.
pub open spec fn branches_of_records(records: Seq<BranchRecord>, head_branch: Option<Seq<char>>)
    -> Seq<BranchModel> {
    records.map_values(|record: BranchRecord| branch_of(record, head_branch))
}

fn build_branch(record: &BranchRecord, head_branch: &Option<String>) -> (branch: Branch)
    ensures
        branch.deep_view() == branch_of(*record, head_branch.deep_view()),
{
    let name = match &record.name {
        Some(n) => n.clone(),
        None => String::from_str("unknown"),
    };
    let named_by_head = match head_branch {
        Some(head) => same_text(head.as_str(), name.as_str()),
        None => false,
    };
    let commit_message = match &record.commit_message {
        Some(text) => match first_line_of(text.as_str()) {
            Some(line) => line,
            None => String::from_str("(no message)"),
        },
        None => String::from_str("(no message)"),
    };
    let upstream = if record.is_remote {
        None
    } else {
        match &record.upstream {
            Some(u) => Some(u.clone()),
            None => None,
        }
    };
    Branch {
        name,
        full_name: match &record.full_name {
            Some(n) => n.clone(),
            None => String::from_str("unknown"),
        },
        is_remote: record.is_remote,
        is_current: !record.is_remote && named_by_head,
        commit_hash: record.commit_hash.clone(),
        commit_message,
        last_commit_date: record.last_commit_date,
        upstream,
    }
}

/// Lists every branch of the store: the same branches, each once, with the
/// current one first, then the local ones, then the remote ones, by name.
pub fn get_branches(records: &Vec<BranchRecord>, head_branch: &Option<String>) -> (branches: Vec<
    Branch,
>)
    ensures
        branches@.len() == records@.len(),
        ordered(branches.deep_view()),
        branches.deep_view().to_multiset() == branches_of_records(
            records@,
            head_branch.deep_view(),
        ).to_multiset(),
{
    let ghost all = branches_of_records(records@, head_branch.deep_view());
    let mut branches: Vec<Branch> = Vec::new();
    assert(branches.deep_view() =~= all.subrange(0, 0));
    let mut i: usize = 0;
    while i < records.len()
        invariant
            i <= records@.len(),
            all == branches_of_records(records@, head_branch.deep_view()),
            branches@.len() == i,
            ordered(branches.deep_view()),
            branches.deep_view().to_multiset() == all.subrange(0, i as int).to_multiset(),
        decreases records@.len() - i,
    {
        let branch = build_branch(&records[i], head_branch);
        proof {
            assert(all.subrange(0, i + 1) =~= all.subrange(0, i as int).push(all[i as int]));
            to_multiset_build(all.subrange(0, i as int), all[i as int]);
        }
        insert_ordered(&mut branches, branch);
        i += 1;
    }
    assert(all.subrange(0, records@.len() as int) =~= all);
    branches
}

} // verus!
