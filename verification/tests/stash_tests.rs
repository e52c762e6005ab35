use gitflow_core::store::OperationState;
use gitflow_core::stash::{
    apply_stash, branch_of_message, check_stash_apply, create_stash, drop_stash, list_stashes,
    pop_stash, record_stash, remove_entry, stash_message, StashCreateOptions, StashEntry,
    StashRecord, StashReport,
};

fn record(message: &str, oid: &str) -> StashRecord {
    StashRecord {
        message: message.to_string(),
        oid: oid.to_string(),
        timestamp: Some(1_700_000_000),
        file_count: Some(2),
    }
}

fn three() -> Vec<StashEntry> {
    list_stashes(&vec![
        record("On main: newest", "c3"),
        record("On dev: middle", "b2"),
        record("On main: oldest", "a1"),
    ])
}

fn oids(list: &Vec<StashEntry>) -> Vec<(usize, String)> {
    list.iter().map(|e| (e.index, e.oid.clone())).collect()
}

fn conflicted() -> StashReport {
    StashReport::Failed { message: "1 conflict prevents checkout".to_string() }
}

#[test]
fn the_branch_is_read_from_the_message() {
    assert_eq!(branch_of_message("On main: work in progress"), "main");
    assert_eq!(branch_of_message("On feature/login : x: y"), "feature/login");
    assert_eq!(branch_of_message("On   spaced  :"), "spaced");
    assert_eq!(branch_of_message("WIP on main: 1234567 message"), "main");
    assert_eq!(branch_of_message("WIP on feature/x: 1234567 On y: z"), "feature/x");
    assert_eq!(branch_of_message("WIP on detached"), "unknown");
    assert_eq!(branch_of_message("wip on main: lower case"), "unknown");
    assert_eq!(branch_of_message("On main: WIP on dev: 2024-01-02 03:04:05"), "main");
    assert_eq!(branch_of_message("On main without colon"), "unknown");
    assert_eq!(branch_of_message(""), "unknown");
    assert_eq!(branch_of_message("x On a: b On c: d"), "a");
    assert_eq!(branch_of_message("On :"), "");
    assert_eq!(branch_of_message("a: On b"), "unknown");
}

#[test]
fn stashes_are_numbered_from_the_most_recent() {
    let list = three();
    assert_eq!(
        oids(&list),
        vec![(0, "c3".to_string()), (1, "b2".to_string()), (2, "a1".to_string())]
    );
    assert_eq!(list[1].branch, "dev");
    assert_eq!(list[1].message, "On dev: middle");
    assert_eq!(list[1].timestamp, 1_700_000_000);
    assert_eq!(list[1].file_count, 2);
    let unread = StashRecord {
        message: "custom".to_string(),
        oid: "d4".to_string(),
        timestamp: None,
        file_count: None,
    };
    let list = list_stashes(&vec![unread]);
    assert_eq!(list[0].timestamp, 0);
    assert_eq!(list[0].file_count, 0);
    assert_eq!(list[0].branch, "unknown");
    assert!(list_stashes(&vec![]).is_empty());
}

#[test]
fn a_conflicted_pop_leaves_the_stash_list_unchanged() {
    let mut list = three();
    let before = oids(&list);
    assert_eq!(
        pop_stash(&mut list, 1, OperationState::Clean, false, &conflicted()).unwrap_err(),
        "Conflicts detected while popping stash. Stash was not removed."
    );
    assert_eq!(list.len(), 3);
    assert_eq!(oids(&list), before);
}

#[test]
fn a_failed_pop_leaves_the_stash_list_unchanged() {
    let mut list = three();
    let before = oids(&list);
    let report = StashReport::Failed { message: "reference not found".to_string() };
    assert_eq!(
        pop_stash(&mut list, 0, OperationState::Clean, false, &report).unwrap_err(),
        "Failed to pop stash: reference not found"
    );
    assert_eq!(oids(&list), before);
}

#[test]
fn a_pop_removes_the_target_and_moves_later_entries_down() {
    let mut list = three();
    assert_eq!(pop_stash(&mut list, 1, OperationState::Clean, false, &StashReport::Done).unwrap(), "Stash @{1} popped successfully");
    assert_eq!(oids(&list), vec![(0, "c3".to_string()), (1, "a1".to_string())]);
    assert_eq!(list[1].message, "On main: oldest");

    let mut list = three();
    assert_eq!(pop_stash(&mut list, 0, OperationState::Clean, false, &StashReport::Done).unwrap(), "Stash @{0} popped successfully");
    assert_eq!(oids(&list), vec![(0, "b2".to_string()), (1, "a1".to_string())]);

    let mut list = three();
    pop_stash(&mut list, 2, OperationState::Clean, false, &StashReport::Done).unwrap();
    assert_eq!(oids(&list), vec![(0, "c3".to_string()), (1, "b2".to_string())]);
}

#[test]
fn a_pop_beyond_the_list_changes_nothing() {
    let mut list = three();
    let before = oids(&list);
    assert_eq!(pop_stash(&mut list, 3, OperationState::Clean, false, &StashReport::Done).unwrap(), "Stash @{3} popped successfully");
    assert_eq!(oids(&list), before);
}

#[test]
fn applying_never_touches_the_list_and_reports_conflicts() {
    assert_eq!(apply_stash(12, OperationState::Clean, false, &StashReport::Done).unwrap(), "Stash @{12} applied successfully");
    assert_eq!(
        apply_stash(0, OperationState::Clean, false, &conflicted()).unwrap_err(),
        "Conflicts detected while applying stash. Please resolve manually."
    );
    let report = StashReport::Failed { message: "no such stash".to_string() };
    assert_eq!(apply_stash(0, OperationState::Clean, false, &report).unwrap_err(), "Failed to apply stash: no such stash");
}

#[test]
fn uncommitted_changes_refuse_apply_and_pop() {
    assert!(check_stash_apply(OperationState::Clean, false, false).is_ok());
    assert!(check_stash_apply(OperationState::Clean, false, true).is_ok());
    assert_eq!(
        check_stash_apply(OperationState::Clean, true, false).unwrap_err(),
        "Working directory has uncommitted changes. Commit or stash them before applying."
    );
    assert_eq!(
        check_stash_apply(OperationState::Clean, true, true).unwrap_err(),
        "Working directory has uncommitted changes. Commit or stash them before popping."
    );
    assert_eq!(
        check_stash_apply(OperationState::Rebase, true, true).unwrap_err(),
        "Another operation is already in progress. Finish or abort it first."
    );
    assert_eq!(
        check_stash_apply(OperationState::Merge, false, false).unwrap_err(),
        "Another operation is already in progress. Finish or abort it first."
    );
}

#[test]
fn a_pop_onto_uncommitted_changes_is_refused_and_pops_nothing() {
    let mut list = three();
    let before = oids(&list);
    assert_eq!(
        pop_stash(&mut list, 1, OperationState::Clean, true, &StashReport::Done).unwrap_err(),
        "Working directory has uncommitted changes. Commit or stash them before popping."
    );
    assert_eq!(oids(&list), before);
    assert_eq!(
        pop_stash(&mut list, 1, OperationState::Rebase, false, &StashReport::Done).unwrap_err(),
        "Another operation is already in progress. Finish or abort it first."
    );
    assert_eq!(oids(&list), before);
    assert_eq!(
        apply_stash(1, OperationState::Clean, true, &StashReport::Done).unwrap_err(),
        "Working directory has uncommitted changes. Commit or stash them before applying."
    );
    assert_eq!(
        apply_stash(1, OperationState::Other, false, &StashReport::Done).unwrap_err(),
        "Another operation is already in progress. Finish or abort it first."
    );
}

#[test]
fn a_drop_removes_by_index() {
    let mut list = three();
    assert_eq!(
        drop_stash(&mut list, 0, &StashReport::Done).unwrap(),
        "Stash @{0} dropped successfully"
    );
    assert_eq!(oids(&list), vec![(0, "b2".to_string()), (1, "a1".to_string())]);
    let report = StashReport::Failed { message: "locked".to_string() };
    assert_eq!(drop_stash(&mut list, 0, &report).unwrap_err(), "Failed to drop stash: locked");
    assert_eq!(list.len(), 2);
    let report = StashReport::Failed { message: "conflict".to_string() };
    assert_eq!(drop_stash(&mut list, 0, &report).unwrap_err(), "Failed to drop stash: conflict");
}

#[test]
fn removing_an_entry_renumbers_the_rest() {
    let mut list = three();
    remove_entry(&mut list, 0);
    remove_entry(&mut list, 0);
    assert_eq!(oids(&list), vec![(0, "a1".to_string())]);
    remove_entry(&mut list, 0);
    assert!(list.is_empty());
}

#[test]
fn nothing_to_stash_is_an_error() {
    let options =
        StashCreateOptions { message: None, include_untracked: true, keep_index: false };
    assert_eq!(
        create_stash(false, Some("main".to_string()), options).unwrap_err(),
        "No changes to stash. Working directory is clean."
    );
}

#[test]
fn a_stash_keeps_the_callers_message_and_switches() {
    let options = StashCreateOptions {
        message: Some("half done".to_string()),
        include_untracked: true,
        keep_index: false,
    };
    let request = create_stash(true, Some("main".to_string()), options).unwrap();
    assert_eq!(request.message, "half done");
    assert_eq!(request.branch, "main");
    assert!(request.include_untracked);
    assert!(!request.keep_index);
}

#[test]
fn a_stash_without_a_message_is_named_by_branch_and_time() {
    let options =
        StashCreateOptions { message: None, include_untracked: false, keep_index: true };
    let request = create_stash(true, None, options).unwrap();
    assert_eq!(request.branch, "HEAD");
    assert!(request.keep_index);
    let stamp = request.message.strip_prefix("WIP on HEAD: ").unwrap();
    assert_eq!(stamp.len(), 19);
    let bytes = stamp.as_bytes();
    assert_eq!(bytes[4], b'-');
    assert_eq!(bytes[7], b'-');
    assert_eq!(bytes[10], b' ');
    assert_eq!(bytes[13], b':');
    assert_eq!(bytes[16], b':');
    assert!(bytes.iter().enumerate().all(|(i, b)| [4, 7, 10, 13, 16].contains(&i)
        || b.is_ascii_digit()));
    assert_eq!(
        stash_message(None, "dev", "2024-01-02 03:04:05"),
        "WIP on dev: 2024-01-02 03:04:05"
    );
    assert_eq!(stash_message(Some("mine".to_string()), "dev", "now"), "mine");
}

#[test]
fn a_new_stash_becomes_entry_zero() {
    let mut list = three();
    let options = StashCreateOptions {
        message: Some("fresh".to_string()),
        include_untracked: false,
        keep_index: false,
    };
    let request = create_stash(true, Some("topic".to_string()), options).unwrap();
    let entry = record_stash(&mut list, &request, "d4", 1_800_000_000, 7);
    assert_eq!(entry.index, 0);
    assert_eq!(entry.message, "fresh");
    assert_eq!(entry.branch, "topic");
    assert_eq!(entry.oid, "d4");
    assert_eq!(entry.timestamp, 1_800_000_000);
    assert_eq!(entry.file_count, 7);
    assert_eq!(
        oids(&list),
        vec![
            (0, "d4".to_string()),
            (1, "c3".to_string()),
            (2, "b2".to_string()),
            (3, "a1".to_string())
        ]
    );
}
