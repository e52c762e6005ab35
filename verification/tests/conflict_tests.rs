use gitflow_core::conflict::{classify_conflict, collect_conflicts, ConflictKind, ConflictSides};

fn sides(ancestor: Option<&str>, ours: Option<&str>, theirs: Option<&str>) -> ConflictSides {
    ConflictSides {
        ancestor: ancestor.map(|s| s.to_string()),
        ours: ours.map(|s| s.to_string()),
        theirs: theirs.map(|s| s.to_string()),
    }
}

#[test]
fn both_sides_present_is_a_content_conflict() {
    let file = classify_conflict(&sides(Some("a.txt"), Some("a.txt"), Some("a.txt")));
    assert_eq!(file.conflict_type, ConflictKind::Content);
    assert_eq!(file.path, "a.txt");
    assert_eq!(file.conflict_type.as_str(), "content");
}

#[test]
fn only_ours_present_is_delete_modify() {
    let file = classify_conflict(&sides(Some("base.txt"), Some("mine.txt"), None));
    assert_eq!(file.conflict_type, ConflictKind::DeleteModify);
    assert_eq!(file.path, "mine.txt");
    assert_eq!(file.conflict_type.as_str(), "delete/modify");
}

#[test]
fn only_theirs_present_is_modify_delete() {
    let file = classify_conflict(&sides(Some("base.txt"), None, Some("theirs.txt")));
    assert_eq!(file.conflict_type, ConflictKind::ModifyDelete);
    assert_eq!(file.path, "theirs.txt");
    assert_eq!(file.conflict_type.as_str(), "modify/delete");
}

#[test]
fn no_side_present_is_unknown_and_does_not_fail() {
    let file = classify_conflict(&sides(Some("gone.txt"), None, None));
    assert_eq!(file.conflict_type, ConflictKind::Unknown);
    assert_eq!(file.path, "gone.txt");
    let file = classify_conflict(&sides(None, None, None));
    assert_eq!(file.conflict_type, ConflictKind::Unknown);
    assert_eq!(file.path, "unknown");
    assert_eq!(file.conflict_type.as_str(), "unknown");
}

#[test]
fn conflicts_are_collected_in_order() {
    let entries = vec![
        sides(None, Some("x"), Some("x")),
        sides(None, None, Some("y")),
        sides(None, Some("z"), None),
    ];
    let files = collect_conflicts(&entries);
    assert_eq!(files.len(), 3);
    assert_eq!(files[0].path, "x");
    assert_eq!(files[0].conflict_type, ConflictKind::Content);
    assert_eq!(files[1].path, "y");
    assert_eq!(files[1].conflict_type, ConflictKind::ModifyDelete);
    assert_eq!(files[2].path, "z");
    assert_eq!(files[2].conflict_type, ConflictKind::DeleteModify);
    assert!(collect_conflicts(&Vec::new()).is_empty());
}
