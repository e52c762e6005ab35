//! Branches: the names they may have, and what creating, switching,
//! deleting and renaming one requires.

use crate::store::OperationState;
use crate::text::{blank, chars_of, ends_with_char, find_from, is_blank, mentions, same_text,
    starts_with_char, lemma_absent, first_at};
use vstd::prelude::*;

verus! {

/// A branch name that is refused: it holds two dots in a row, or begins or
/// ends with a slash.
pub open spec fn malformed_name(name: Seq<char>) -> bool {
    ||| mentions(name, ".."@)
    ||| (name.len() > 0 && name[0] == '/')
    ||| (name.len() > 0 && name.last() == '/')
}

/// Whether a branch name is refused for its form.
pub fn is_malformed_name(name: &str) -> (r: bool)
    ensures
        r == malformed_name(name@),
{
    let text = chars_of(name);
    let dots = chars_of("..");
    let has_dots = match find_from(&text, &dots, 0) {
        Some(at) => {
            assert(first_at(text@, dots@, 0, at as int));
            true
        },
        None => {
            proof {
                lemma_absent(text@, dots@);
            }
            false
        },
    };
    has_dots || starts_with_char(&text, '/') || ends_with_char(&text, '/')
}

pub open spec fn empty_name_message() -> Seq<char> {
    "Branch name cannot be empty"@
}

pub open spec fn empty_new_name_message() -> Seq<char> {
    "New branch name cannot be empty"@
}

pub open spec fn invalid_name_message() -> Seq<char> {
    "Invalid branch name"@
}

pub open spec fn exists_message(name: Seq<char>) -> Seq<char> {
    "Branch '"@ + name + "' already exists"@
}

pub open spec fn not_found_message(name: Seq<char>) -> Seq<char> {
    "Branch '"@ + name + "' not found"@
}

pub open spec fn created_message(name: Seq<char>) -> Seq<char> {
    "Branch '"@ + name + "' created successfully"@
}

pub open spec fn switched_message(name: Seq<char>) -> Seq<char> {
    "Switched to branch '"@ + name + "'"@
}

pub open spec fn deleted_message(name: Seq<char>) -> Seq<char> {
    "Branch '"@ + name + "' deleted successfully"@
}

pub open spec fn renamed_message(old_name: Seq<char>, new_name: Seq<char>) -> Seq<char> {
    "Branch '"@ + old_name + "' renamed to '"@ + new_name + "'"@
}

pub open spec fn unmerged_message(name: Seq<char>) -> Seq<char> {
    "Branch '"@ + name + "' is not fully merged. Use force delete if you're sure."@
}

pub open spec fn delete_current_message() -> Seq<char> {
    "Cannot delete the current branch. Please switch to another branch first."@
}

pub open spec fn uncommitted_switch_message() -> Seq<char> {
    "You have uncommitted changes. Please commit or stash them before switching branches."@
}

fn quoted(lead: &str, name: &str, tail: &str) -> (m: String)
    ensures
        m@ == lead@ + name@ + tail@,
{
    let mut m = String::from_str(lead);
    m.append(name);
    m.append(tail);
    m
}

/// Why a name cannot be given to a new branch, if it cannot: it is blank,
/// or malformed. Nothing is asked of the store for this.
pub open spec fn name_refusal(name: Seq<char>, blank_message: Seq<char>) -> Option<Seq<char>> {
    if blank(name) {
        Some(blank_message)
    } else if malformed_name(name) {
        Some(invalid_name_message())
    } else {
        None
    }
}

/// Holds the name of a branch to be created to the rules for names.
pub fn check_branch_name(name: &str) -> (r: Result<(), String>)
    ensures
        match r {
            Ok(_) => name_refusal(name@, empty_name_message()) is None,
            Err(message) => name_refusal(name@, empty_name_message()) == Some(message@),
        },
{
    if is_blank(name) {
        Err(String::from_str("Branch name cannot be empty"))
    } else if is_malformed_name(name) {
        Err(String::from_str("Invalid branch name"))
    } else {
        Ok(())
    }
}

/// What the store is asked to do for a new branch.
#[derive(Clone, Debug)]
pub struct BranchPlan {
    /// The full name of the reference to create.
    pub refname: String,
    /// Whether to check the branch out once it exists.
    pub checkout: bool,
    /// What to tell the caller once it is done.
    pub message: String,
}

/// Why a branch cannot be created, if it cannot: its name is refused, or a
/// branch of that name exists.
pub open spec fn create_refusal(name: Seq<char>, exists: bool) -> Option<Seq<char>> {
    match name_refusal(name, empty_name_message()) {
        Some(why) => Some(why),
        None => if exists {
            Some(exists_message(name))
        } else {
            None
        },
    }
}

/// Decides the creation of a branch. `exists` says whether a local branch
/// of that name is there already.
pub fn create_branch(branch_name: &str, exists: bool, checkout: bool) -> (r: Result<
    BranchPlan,
    String,
>)
    ensures
        match r {
            Ok(plan) => {
                &&& create_refusal(branch_name@, exists) is None
                &&& plan.refname@ == "refs/heads/"@ + branch_name@
                &&& plan.checkout == checkout
                &&& plan.message@ == created_message(branch_name@)
            },
            Err(message) => create_refusal(branch_name@, exists) == Some(message@),
        },
{
    match check_branch_name(branch_name) {
        Err(why) => Err(why),
        Ok(_) => {
            if exists {
                Err(quoted("Branch '", branch_name, "' already exists"))
            } else {
                let mut refname = String::from_str("refs/heads/");
                refname.append(branch_name);
                Ok(
                    BranchPlan {
                        refname,
                        checkout,
                        message: quoted("Branch '", branch_name, "' created successfully"),
                    },
                )
            }
        },
    }
}

pub open spec fn busy_switch_message() -> Seq<char> {
    "Another operation is already in progress. Finish or abort it first."@
}

/// Why a branch cannot be switched to, if it cannot: an operation is in
/// progress, uncommitted changes are in the way, or there is no such branch.
pub open spec fn switch_refusal(
    name: Seq<char>,
    operation: OperationState,
    uncommitted: bool,
    found: bool,
) -> Option<Seq<char>> {
    if operation != OperationState::Clean {
        Some(busy_switch_message())
    } else if uncommitted {
        Some(uncommitted_switch_message())
    } else if !found {
        Some(not_found_message(name))
    } else {
        None
    }
}

/// Decides a branch switch. While an operation is in progress or changes
/// are uncommitted it is refused before anything else is looked at, and
/// nothing is asked of the store: HEAD stays where it is.
pub fn switch_branch(
    branch_name: &str,
    operation: OperationState,
    uncommitted: bool,
    found: bool,
) -> (r: Result<BranchPlan, String>)
    ensures
        match r {
            Ok(plan) => {
                &&& switch_refusal(branch_name@, operation, uncommitted, found) is None
                &&& plan.refname@ == "refs/heads/"@ + branch_name@
                &&& plan.checkout
                &&& plan.message@ == switched_message(branch_name@)
            },
            Err(message) => switch_refusal(branch_name@, operation, uncommitted, found) == Some(
                message@,
            ),
        },
{
    if !operation.is_clean() {
        Err(
            String::from_str("Another operation is already in progress. Finish or abort it first."),
        )
    } else if uncommitted {
        Err(
            String::from_str(
                "You have uncommitted changes. Please commit or stash them before switching branches.",
            ),
        )
    } else if !found {
        Err(quoted("Branch '", branch_name, "' not found"))
    } else {
        let mut refname = String::from_str("refs/heads/");
        refname.append(branch_name);
        Ok(
            BranchPlan {
                refname,
                checkout: true,
                message: quoted("Switched to branch '", branch_name, "'"),
            },
        )
    }
}

/// Why a branch cannot be deleted, if it cannot: it is the current one, it
/// does not exist, or it is not merged into HEAD and force was not asked.
pub open spec fn delete_refusal(
    name: Seq<char>,
    current: Option<Seq<char>>,
    found: bool,
    force: bool,
    merged: bool,
) -> Option<Seq<char>> {
    if current == Some(name) {
        Some(delete_current_message())
    } else if !found {
        Some(not_found_message(name))
    } else if !force && !merged {
        Some(unmerged_message(name))
    } else {
        None
    }
}

/// Decides the deletion of a branch; `Ok` holds what to tell the caller
/// once the store has deleted it.
pub fn delete_branch(
    branch_name: &str,
    current: &Option<String>,
    found: bool,
    force: bool,
    merged: bool,
) -> (r: Result<String, String>)
    ensures
        match r {
            Ok(message) => delete_refusal(branch_name@, current.deep_view(), found, force, merged)
                is None && message@ == deleted_message(branch_name@),
            Err(message) => delete_refusal(branch_name@, current.deep_view(), found, force, merged)
                == Some(message@),
        },
{
    let is_current = match current {
        Some(name) => same_text(name.as_str(), branch_name),
        None => false,
    };
    if is_current {
        Err(
            String::from_str(
                "Cannot delete the current branch. Please switch to another branch first.",
            ),
        )
    } else if !found {
        Err(quoted("Branch '", branch_name, "' not found"))
    } else if !force && !merged {
        Err(
            quoted(
                "Branch '",
                branch_name,
                "' is not fully merged. Use force delete if you're sure.",
            ),
        )
    } else {
        Ok(quoted("Branch '", branch_name, "' deleted successfully"))
    }
}

/// Why a branch cannot be renamed, if it cannot: the new name is refused or
/// taken, or there is no branch of the old name.
pub open spec fn rename_refusal(
    old_name: Seq<char>,
    new_name: Seq<char>,
    new_exists: bool,
    old_found: bool,
) -> Option<Seq<char>> {
    match name_refusal(new_name, empty_new_name_message()) {
        Some(why) => Some(why),
        None => if new_exists {
            Some(exists_message(new_name))
        } else if !old_found {
            Some(not_found_message(old_name))
        } else {
            None
        },
    }
}

/// Decides the renaming of a branch; `Ok` holds what to tell the caller
/// once the store has renamed it.
pub fn rename_branch(old_name: &str, new_name: &str, new_exists: bool, old_found: bool) -> (r:
    Result<String, String>)
    ensures
        match r {
            Ok(message) => rename_refusal(old_name@, new_name@, new_exists, old_found) is None
                && message@ == renamed_message(old_name@, new_name@),
            Err(message) => rename_refusal(old_name@, new_name@, new_exists, old_found) == Some(
                message@,
            ),
        },
{
    if is_blank(new_name) {
        Err(String::from_str("New branch name cannot be empty"))
    } else if is_malformed_name(new_name) {
        Err(String::from_str("Invalid branch name"))
    } else if new_exists {
        Err(quoted("Branch '", new_name, "' already exists"))
    } else if !old_found {
        Err(quoted("Branch '", old_name, "' not found"))
    } else {
        let mut message = String::from_str("Branch '");
        message.append(old_name);
        message.append("' renamed to '");
        message.append(new_name);
        message.append("'");
        Ok(message)
    }
}

} // verus!
