use gitflow_core::branch::{
    check_branch_name, create_branch, delete_branch, is_malformed_name, rename_branch,
    switch_branch,
};
use gitflow_core::branch_list::{get_branches, insert_ordered, text_at_most, Branch, BranchRecord};
use gitflow_core::status::{has_uncommitted_changes, StatusEntry, WT_MODIFIED};
use gitflow_core::store::OperationState;

fn rec(name: &str, remote: bool, upstream: Option<&str>) -> BranchRecord {
    BranchRecord {
        name: Some(name.to_string()),
        full_name: Some(if remote {
            format!("refs/remotes/{}", name)
        } else {
            format!("refs/heads/{}", name)
        }),
        is_remote: remote,
        commit_hash: "1234567890".to_string(),
        commit_message: Some("Subject line\n\nBody".to_string()),
        last_commit_date: 42,
        upstream: upstream.map(|s| s.to_string()),
    }
}

#[test]
fn names_are_held_to_the_rules() {
    assert!(check_branch_name("feature/login").is_ok());
    assert!(check_branch_name("a.b").is_ok());
    assert_eq!(check_branch_name("").unwrap_err(), "Branch name cannot be empty");
    assert_eq!(check_branch_name("  \t").unwrap_err(), "Branch name cannot be empty");
    assert_eq!(check_branch_name("a..b").unwrap_err(), "Invalid branch name");
    assert_eq!(check_branch_name("/a").unwrap_err(), "Invalid branch name");
    assert_eq!(check_branch_name("a/").unwrap_err(), "Invalid branch name");
    assert!(is_malformed_name(".."));
    assert!(is_malformed_name("/"));
    assert!(!is_malformed_name("a/b.c"));
    assert!(!is_malformed_name(""));
}

#[test]
fn a_branch_is_created_unless_its_name_is_bad_or_taken() {
    let plan = create_branch("topic", false, true).unwrap();
    assert_eq!(plan.refname, "refs/heads/topic");
    assert!(plan.checkout);
    assert_eq!(plan.message, "Branch 'topic' created successfully");
    assert!(!create_branch("topic", false, false).unwrap().checkout);
    assert_eq!(create_branch("topic", true, false).unwrap_err(), "Branch 'topic' already exists");
    assert_eq!(create_branch(" ", true, false).unwrap_err(), "Branch name cannot be empty");
    assert_eq!(create_branch("a..b", true, false).unwrap_err(), "Invalid branch name");
}

#[test]
fn switching_with_a_modified_tracked_file_is_refused() {
    let entries = vec![StatusEntry { path: "src/main.rs".to_string(), bits: WT_MODIFIED }];
    let uncommitted = has_uncommitted_changes(&entries);
    assert!(uncommitted);
    let refusal = switch_branch("topic", OperationState::Clean, uncommitted, true).unwrap_err();
    assert_eq!(
        refusal,
        "You have uncommitted changes. Please commit or stash them before switching branches."
    );
    assert!(refusal.contains("commit or stash"));
    assert_eq!(
        switch_branch("nowhere", OperationState::Clean, true, false).unwrap_err(),
        "You have uncommitted changes. Please commit or stash them before switching branches."
    );
}

#[test]
fn switching_while_an_operation_is_in_progress_is_refused() {
    for operation in [OperationState::Rebase, OperationState::Merge, OperationState::Other] {
        assert_eq!(
            switch_branch("topic", operation, false, true).unwrap_err(),
            "Another operation is already in progress. Finish or abort it first."
        );
    }
}

#[test]
fn switching_on_a_clean_tree_checks_the_branch_out() {
    let plan = switch_branch("topic", OperationState::Clean, false, true).unwrap();
    assert_eq!(plan.refname, "refs/heads/topic");
    assert!(plan.checkout);
    assert_eq!(plan.message, "Switched to branch 'topic'");
    assert_eq!(switch_branch("topic", OperationState::Clean, false, false).unwrap_err(), "Branch 'topic' not found");
}

#[test]
fn deleting_is_refused_for_the_current_and_the_unmerged_branch() {
    let current = Some("main".to_string());
    assert_eq!(
        delete_branch("main", &current, true, true, true).unwrap_err(),
        "Cannot delete the current branch. Please switch to another branch first."
    );
    assert_eq!(
        delete_branch("gone", &current, false, true, true).unwrap_err(),
        "Branch 'gone' not found"
    );
    assert_eq!(
        delete_branch("topic", &current, true, false, false).unwrap_err(),
        "Branch 'topic' is not fully merged. Use force delete if you're sure."
    );
    assert_eq!(
        delete_branch("topic", &current, true, true, false).unwrap(),
        "Branch 'topic' deleted successfully"
    );
    assert_eq!(
        delete_branch("topic", &None, true, false, true).unwrap(),
        "Branch 'topic' deleted successfully"
    );
}

#[test]
fn renaming_checks_the_new_name_first() {
    assert_eq!(
        rename_branch("old", "new", false, true).unwrap(),
        "Branch 'old' renamed to 'new'"
    );
    assert_eq!(
        rename_branch("old", "", true, false).unwrap_err(),
        "New branch name cannot be empty"
    );
    assert_eq!(rename_branch("old", "x/", true, false).unwrap_err(), "Invalid branch name");
    assert_eq!(
        rename_branch("old", "new", true, false).unwrap_err(),
        "Branch 'new' already exists"
    );
    assert_eq!(rename_branch("old", "new", false, false).unwrap_err(), "Branch 'old' not found");
}

#[test]
fn texts_are_ordered_as_strings_are() {
    let words = ["", "a", "ab", "b", "B", "main", "maintenance", "é", "z", "origin/main"];
    for a in words {
        for b in words {
            assert_eq!(text_at_most(a, b), a <= b, "{:?} <= {:?}", a, b);
        }
    }
}

#[test]
fn branches_are_listed_current_first_then_local_then_remote_by_name() {
    let records = vec![
        rec("origin/main", true, None),
        rec("zeta", false, None),
        rec("main", false, Some("origin/main")),
        rec("origin/alpha", true, Some("ignored")),
        rec("alpha", false, None),
    ];
    let branches = get_branches(&records, &Some("main".to_string()));
    let names: Vec<&str> = branches.iter().map(|b| b.name.as_str()).collect();
    assert_eq!(names, vec!["main", "alpha", "zeta", "origin/alpha", "origin/main"]);
    assert!(branches[0].is_current);
    assert!(branches.iter().skip(1).all(|b| !b.is_current));
    assert_eq!(branches[0].upstream, Some("origin/main".to_string()));
    assert_eq!(branches[3].upstream, None);
    assert_eq!(branches[0].commit_message, "Subject line");
    assert_eq!(branches[0].full_name, "refs/heads/main");
    assert_eq!(branches[4].full_name, "refs/remotes/origin/main");
    assert_eq!(branches[0].commit_hash, "1234567890");
    assert_eq!(branches[0].last_commit_date, 42);
}

#[test]
fn a_remote_branch_named_like_head_is_not_current() {
    let records = vec![rec("main", true, None), rec("dev", false, None)];
    let branches = get_branches(&records, &Some("main".to_string()));
    assert_eq!(branches[0].name, "dev");
    assert!(!branches[0].is_current);
    assert!(!branches[1].is_current);
    assert!(get_branches(&vec![], &None).is_empty());
}

#[test]
fn missing_texts_get_placeholders() {
    let record = BranchRecord {
        name: None,
        full_name: None,
        is_remote: false,
        commit_hash: "abc".to_string(),
        commit_message: None,
        last_commit_date: 0,
        upstream: None,
    };
    let mut empty_message = rec("x", false, None);
    empty_message.commit_message = Some(String::new());
    let branches = get_branches(&vec![record, empty_message], &None);
    assert_eq!(branches[0].name, "unknown");
    assert_eq!(branches[0].full_name, "unknown");
    assert_eq!(branches[0].commit_message, "(no message)");
    assert_eq!(branches[1].commit_message, "(no message)");
}

#[test]
fn inserting_keeps_the_list_ordered() {
    let mut list: Vec<Branch> = get_branches(
        &vec![rec("b", false, None), rec("d", false, None)],
        &None,
    );
    let extra = get_branches(&vec![rec("c", false, None)], &None).remove(0);
    insert_ordered(&mut list, extra);
    let names: Vec<&str> = list.iter().map(|b| b.name.as_str()).collect();
    assert_eq!(names, vec!["b", "c", "d"]);
}
