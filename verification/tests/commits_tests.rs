use gitflow_core::commits::{
    branches_of, get_commits, get_rebase_commits, newest_first, tags_of, BranchTip, CommitRecord,
    TagTip,
};
use gitflow_core::diff::{
    file_changes, get_file_diff, stash_revision_name, DeltaKind, DeltaRecord, DiffLine,
};
use gitflow_core::rebase_plan::RebaseAction;

const BASE: &str = "ba5e000000000000000000000000000000000000";

fn commit(oid: &str, message: Option<&str>, time: i64) -> CommitRecord {
    CommitRecord {
        oid: oid.to_string(),
        message: message.map(|s| s.to_string()),
        author_name: Some("Ada".to_string()),
        author_email: Some("ada@example.com".to_string()),
        timestamp: time,
        parents: vec!["p1".to_string(), "p2".to_string()],
    }
}

fn tip(oid: &str, name: &str, remote: bool) -> BranchTip {
    BranchTip { oid: oid.to_string(), name: name.to_string(), is_remote: remote }
}

fn tag(oid: &str, name: &str, annotated: bool) -> TagTip {
    TagTip { oid: oid.to_string(), name: name.to_string(), is_annotated: annotated }
}

fn line(path: &str, origin: char, content: &str) -> DiffLine {
    DiffLine { path: path.to_string(), origin, content: content.to_string() }
}

#[test]
fn commits_are_decorated_with_branches_and_tags() {
    let records = vec![
        commit("c3c3c3c3c3", Some("  Third \n"), 30),
        commit("b2b2b2b2b2", None, 20),
        commit("a1a1a1a1a1", Some("First"), 10),
    ];
    let branches = vec![
        tip("c3c3c3c3c3", "main", false),
        tip("a1a1a1a1a1", "old", false),
        tip("c3c3c3c3c3", "origin/main", true),
        tip("c3c3c3c3c3", "main", true),
    ];
    let tags = vec![tag("a1a1a1a1a1", "v1.0", true), tag("c3c3c3c3c3", "remotes/x/v2", false)];
    let commits = get_commits(&records, &branches, &tags, &Some("main".to_string()), None);
    assert_eq!(commits.len(), 3);
    assert_eq!(commits[0].hash, "c3c3c3c3c3");
    assert_eq!(commits[0].short_hash, "c3c3c3c");
    assert_eq!(commits[0].message, "Third");
    assert_eq!(commits[0].author_name, "Ada");
    assert_eq!(commits[0].author_email, "ada@example.com");
    assert_eq!(commits[0].timestamp, 30);
    assert_eq!(commits[0].parent_hashes, vec!["p1".to_string(), "p2".to_string()]);
    let refs: Vec<(&str, bool, bool)> = commits[0]
        .branches
        .iter()
        .map(|b| (b.name.as_str(), b.is_remote, b.is_current))
        .collect();
    assert_eq!(
        refs,
        vec![("main", false, true), ("origin/main", true, false), ("main", true, false)]
    );
    assert_eq!(commits[0].tags.len(), 1);
    assert_eq!(commits[0].tags[0].name, "remotes/x/v2");
    assert!(commits[0].tags[0].is_remote);
    assert!(!commits[0].tags[0].is_annotated);
    assert_eq!(commits[1].message, "(no message)");
    assert!(commits[1].branches.is_empty());
    assert!(commits[1].tags.is_empty());
    assert_eq!(commits[2].branches.len(), 1);
    assert!(!commits[2].branches[0].is_current);
    assert_eq!(commits[2].tags[0].name, "v1.0");
    assert!(commits[2].tags[0].is_annotated);
    assert!(!commits[2].tags[0].is_remote);
}

#[test]
fn the_listing_stops_at_the_limit() {
    let records: Vec<CommitRecord> =
        (0..150).map(|i| commit(&format!("{:040x}", i), Some("m"), 1000 - i)).collect();
    assert_eq!(get_commits(&records, &vec![], &vec![], &None, None).len(), 100);
    assert_eq!(get_commits(&records, &vec![], &vec![], &None, Some(7)).len(), 7);
    assert_eq!(get_commits(&records, &vec![], &vec![], &None, Some(0)).len(), 0);
    assert_eq!(get_commits(&records, &vec![], &vec![], &None, Some(500)).len(), 150);
    let first = get_commits(&records, &vec![], &vec![], &None, Some(2));
    assert_eq!(first[1].hash, format!("{:040x}", 1));
    assert_eq!(first[1].timestamp, 999);
}

#[test]
fn missing_author_fields_get_placeholders() {
    let mut record = commit("abcdef", Some("x"), 1);
    record.author_name = None;
    record.author_email = None;
    let commits = get_commits(&vec![record], &vec![], &vec![], &None, None);
    assert_eq!(commits[0].author_name, "Unknown");
    assert_eq!(commits[0].author_email, "");
    assert_eq!(commits[0].short_hash, "abcdef");
}

#[test]
fn decorations_keep_the_order_of_the_store() {
    let tips = vec![tip("x", "b", false), tip("y", "skip", false), tip("x", "a", true)];
    let refs = branches_of(&tips, "x", &None);
    assert_eq!(refs.len(), 2);
    assert_eq!(refs[0].name, "b");
    assert_eq!(refs[1].name, "a");
    assert!(!refs[0].is_current);
    let tags = vec![tag("x", "t1", false), tag("x", "t0", true)];
    let refs = tags_of(&tags, "x");
    assert_eq!(refs[0].name, "t1");
    assert_eq!(refs[1].name, "t0");
    assert!(tags_of(&tags, "y").is_empty());
}

#[test]
fn rebase_commits_are_listed_oldest_first_as_picks() {
    let walked = vec![
        commit("c3c3c3c3c3", Some("Third\nbody"), 30),
        commit("b2b2b2b2b2", Some(""), 20),
        commit("a1a1a1a1a1", None, 10),
    ];
    let commits = get_rebase_commits(BASE, true, &walked).unwrap();
    assert_eq!(commits.len(), 3);
    assert_eq!(commits[0].hash, "a1a1a1a1a1");
    assert_eq!(commits[0].message, "<no message>");
    assert_eq!(commits[1].hash, "b2b2b2b2b2");
    assert_eq!(commits[1].message, "<no message>");
    assert_eq!(commits[2].hash, "c3c3c3c3c3");
    assert_eq!(commits[2].short_hash, "c3c3c3c");
    assert_eq!(commits[2].message, "Third");
    assert_eq!(commits[2].author, "Ada");
    assert_eq!(commits[2].timestamp, 30);
    assert!(commits.iter().all(|c| c.action == RebaseAction::Pick));
    let mut anonymous = commit("d4d4d4d4", Some("x"), 1);
    anonymous.author_name = None;
    assert_eq!(get_rebase_commits(BASE, true, &vec![anonymous]).unwrap()[0].author, "<unknown>");
}

#[test]
fn rebase_commits_are_refused_for_a_bad_base() {
    let walked = vec![commit("c3c3c3c3c3", Some("x"), 1)];
    assert_eq!(
        get_rebase_commits("nope", false, &vec![]).unwrap_err(),
        "Invalid base commit hash: nope"
    );
    assert_eq!(
        get_rebase_commits(BASE, false, &vec![]).unwrap_err(),
        format!("Base commit {} is not an ancestor of HEAD. Cannot rebase.", BASE)
    );
    assert_eq!(
        get_rebase_commits(BASE, true, &vec![]).unwrap_err(),
        "No commits to rebase. HEAD and base are the same."
    );
    assert!(get_rebase_commits("abc", true, &walked).is_ok());
}

#[test]
fn differences_become_file_changes() {
    let deltas = vec![
        DeltaRecord {
            new_path: Some("new.txt".to_string()),
            old_path: Some("old.txt".to_string()),
            kind: DeltaKind::Renamed,
        },
        DeltaRecord { new_path: None, old_path: Some("gone.txt".to_string()), kind: DeltaKind::Deleted },
        DeltaRecord { new_path: None, old_path: None, kind: DeltaKind::Other },
        DeltaRecord { new_path: Some("a".to_string()), old_path: None, kind: DeltaKind::Added },
    ];
    let changes = file_changes(&deltas);
    let seen: Vec<(&str, &str, u32, u32)> = changes
        .iter()
        .map(|c| (c.path.as_str(), c.status.as_str(), c.insertions, c.deletions))
        .collect();
    assert_eq!(
        seen,
        vec![
            ("new.txt", "renamed", 0, 0),
            ("gone.txt", "deleted", 0, 0),
            ("unknown", "unknown", 0, 0),
            ("a", "added", 0, 0),
        ]
    );
    assert_eq!(DeltaKind::Modified.as_str(), "modified");
    assert_eq!(DeltaKind::Copied.as_str(), "copied");
    assert!(file_changes(&vec![]).is_empty());
}

#[test]
fn a_stash_is_looked_up_by_its_revision_name() {
    assert_eq!(stash_revision_name(0), "stash@{0}");
    assert_eq!(stash_revision_name(17), "stash@{17}");
}

#[test]
fn the_patch_of_one_file_is_cut_out_of_the_whole() {
    let lines = vec![
        line("a.txt", 'F', "diff --git a/a.txt b/a.txt\n"),
        line("a.txt", 'H', "@@ -1 +1 @@\n"),
        line("a.txt", '-', "old\n"),
        line("a.txt", '+', "new\n"),
        line("b.txt", 'F', "diff --git a/b.txt b/b.txt\n"),
        line("b.txt", '+', "other\n"),
        line("a.txt", ' ', "context\n"),
        line("a.txt", '>', "odd\n"),
    ];
    assert_eq!(
        get_file_diff("a.txt", &lines).unwrap(),
        "diff --git a/a.txt b/a.txt\n@@ -1 +1 @@\n-old\n+new\n context\nodd\n"
    );
    assert_eq!(get_file_diff("b.txt", &lines).unwrap(), "diff --git a/b.txt b/b.txt\n+other\n");
    assert_eq!(get_file_diff("c.txt", &lines).unwrap_err(), "File not found in commit: c.txt");
    assert_eq!(get_file_diff("a.txt", &vec![]).unwrap_err(), "File not found in commit: a.txt");
    let silent = vec![line("e.txt", 'B', "")];
    assert_eq!(get_file_diff("e.txt", &silent).unwrap(), "");
}

#[test]
fn commits_are_listed_newest_author_time_first() {
    let records = vec![
        commit("a1", Some("oldest"), 10),
        commit("c3", Some("newest"), 30),
        commit("b2", Some("middle"), 20),
    ];
    let commits = get_commits(&records, &vec![], &vec![], &None, None);
    let hashes: Vec<&str> = commits.iter().map(|c| c.hash.as_str()).collect();
    assert_eq!(hashes, vec!["c3", "b2", "a1"]);
    assert!(commits.windows(2).all(|w| w[0].timestamp >= w[1].timestamp));
    let cut = get_commits(&records, &vec![], &vec![], &None, Some(2));
    let hashes: Vec<&str> = cut.iter().map(|c| c.hash.as_str()).collect();
    assert_eq!(hashes, vec!["c3", "b2"]);
}

#[test]
fn commits_of_the_same_time_keep_the_order_of_discovery() {
    let records = vec![
        commit("x", None, 5),
        commit("p", None, 7),
        commit("y", None, 5),
        commit("q", None, 7),
        commit("z", None, 5),
        commit("n", None, -1),
    ];
    assert_eq!(newest_first(&records), vec![1, 3, 0, 2, 4, 5]);
    let commits = get_commits(&records, &vec![], &vec![], &None, None);
    let hashes: Vec<&str> = commits.iter().map(|c| c.hash.as_str()).collect();
    assert_eq!(hashes, vec!["p", "q", "x", "y", "z", "n"]);
}

#[test]
fn a_commit_found_twice_is_listed_once() {
    let records = vec![
        commit("a1", Some("first"), 10),
        commit("b2", Some("second"), 20),
        commit("a1", Some("again"), 30),
        commit("b2", Some("again"), 5),
    ];
    assert_eq!(newest_first(&records), vec![1, 0]);
    let commits = get_commits(&records, &vec![], &vec![], &None, None);
    let seen: Vec<(&str, &str)> =
        commits.iter().map(|c| (c.hash.as_str(), c.message.as_str())).collect();
    assert_eq!(seen, vec![("b2", "second"), ("a1", "first")]);
    assert!(newest_first(&vec![]).is_empty());
}
