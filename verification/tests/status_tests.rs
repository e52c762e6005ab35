use gitflow_core::status::{
    get_working_directory_status, has_uncommitted_changes, is_index_changed, is_worktree_changed, staged_change_of, unstaged_change_of, ChangeKind,
    StatusEntry, CONFLICTED, INDEX_DELETED, INDEX_MODIFIED, INDEX_NEW, INDEX_RENAMED, WT_DELETED,
    WT_MODIFIED, WT_NEW, WT_RENAMED,
};

fn entry(path: &str, bits: u32) -> StatusEntry {
    StatusEntry { path: path.to_string(), bits }
}

#[test]
fn the_flags_are_those_of_the_store() {
    assert_eq!(INDEX_NEW, git2::Status::INDEX_NEW.bits());
    assert_eq!(INDEX_MODIFIED, git2::Status::INDEX_MODIFIED.bits());
    assert_eq!(INDEX_DELETED, git2::Status::INDEX_DELETED.bits());
    assert_eq!(INDEX_RENAMED, git2::Status::INDEX_RENAMED.bits());
    assert_eq!(WT_NEW, git2::Status::WT_NEW.bits());
    assert_eq!(WT_MODIFIED, git2::Status::WT_MODIFIED.bits());
    assert_eq!(WT_DELETED, git2::Status::WT_DELETED.bits());
    assert_eq!(WT_RENAMED, git2::Status::WT_RENAMED.bits());
    assert_eq!(CONFLICTED, git2::Status::CONFLICTED.bits());
}

#[test]
fn each_flag_is_read_on_its_own() {
    assert_eq!(staged_change_of(INDEX_NEW), Some(ChangeKind::Added));
    assert_eq!(staged_change_of(INDEX_MODIFIED), Some(ChangeKind::Modified));
    assert_eq!(staged_change_of(INDEX_DELETED), Some(ChangeKind::Deleted));
    assert_eq!(staged_change_of(INDEX_RENAMED), Some(ChangeKind::Renamed));
    assert_eq!(staged_change_of(WT_NEW | WT_MODIFIED | CONFLICTED), None);
    assert_eq!(staged_change_of(0), None);
    assert_eq!(unstaged_change_of(WT_NEW), Some(ChangeKind::Added));
    assert_eq!(unstaged_change_of(WT_MODIFIED), Some(ChangeKind::Modified));
    assert_eq!(unstaged_change_of(WT_DELETED), Some(ChangeKind::Deleted));
    assert_eq!(unstaged_change_of(WT_RENAMED), Some(ChangeKind::Renamed));
    assert_eq!(unstaged_change_of(INDEX_NEW | INDEX_RENAMED), None);
    assert_eq!(staged_change_of(INDEX_MODIFIED | INDEX_RENAMED), Some(ChangeKind::Modified));
    assert_eq!(unstaged_change_of(WT_DELETED | WT_NEW), Some(ChangeKind::Added));
}

#[test]
fn changes_are_told_apart_by_where_they_are() {
    assert!(is_worktree_changed(WT_MODIFIED));
    assert!(is_worktree_changed(WT_NEW));
    assert!(is_worktree_changed(WT_DELETED));
    assert!(!is_worktree_changed(WT_RENAMED));
    assert!(!is_worktree_changed(INDEX_MODIFIED | INDEX_NEW | INDEX_DELETED));
    assert!(is_index_changed(INDEX_NEW));
    assert!(is_index_changed(INDEX_MODIFIED));
    assert!(is_index_changed(INDEX_DELETED));
    assert!(!is_index_changed(INDEX_RENAMED | WT_MODIFIED));
    assert!(!is_index_changed(16));
}

#[test]
fn staged_and_unstaged_changes_both_count_as_uncommitted() {
    assert!(has_uncommitted_changes(&vec![entry("a", INDEX_MODIFIED), entry("b", 0)]));
    assert!(has_uncommitted_changes(&vec![entry("a", 0), entry("b", WT_DELETED)]));
    assert!(has_uncommitted_changes(&vec![entry("a", INDEX_NEW)]));
    assert!(!has_uncommitted_changes(&vec![]));
    assert!(!has_uncommitted_changes(&vec![entry("a", 0), entry("b", 0)]));
    assert!(!has_uncommitted_changes(&vec![entry("c", CONFLICTED | WT_RENAMED)]));
}

#[test]
fn status_is_sorted_into_staged_and_unstaged() {
    let entries = vec![
        entry("both.txt", INDEX_MODIFIED | WT_MODIFIED),
        entry("new.txt", WT_NEW),
        entry("clean.txt", 0),
        entry("gone.txt", INDEX_DELETED),
        entry("fight.txt", CONFLICTED),
        entry("moved.txt", INDEX_RENAMED | WT_DELETED | CONFLICTED),
    ];
    let status = get_working_directory_status(&entries);
    let staged: Vec<(String, &str, bool)> = status
        .staged
        .iter()
        .map(|f| (f.path.clone(), f.status.as_str(), f.is_staged))
        .collect();
    assert_eq!(
        staged,
        vec![
            ("both.txt".to_string(), "modified", true),
            ("gone.txt".to_string(), "deleted", true),
            ("moved.txt".to_string(), "renamed", true),
        ]
    );
    let unstaged: Vec<(String, &str, bool)> = status
        .unstaged
        .iter()
        .map(|f| (f.path.clone(), f.status.as_str(), f.is_staged))
        .collect();
    assert_eq!(
        unstaged,
        vec![
            ("both.txt".to_string(), "modified", false),
            ("new.txt".to_string(), "added", false),
            ("fight.txt".to_string(), "conflicted", false),
            ("moved.txt".to_string(), "deleted", false),
            ("moved.txt".to_string(), "conflicted", false),
        ]
    );
}
