use gitflow_core::conflict::{ConflictFile, ConflictKind};
use gitflow_core::pull::{
    pull_from_remote, PullCommand, PullEvent, PullSession, PullState, PullStrategy, Relation,
    Route, ANALYSIS_FASTFORWARD, ANALYSIS_UP_TO_DATE,
};
use gitflow_core::store::OperationState;

const TIP: &str = "1111111111111111111111111111111111111111";
const HEAD: &str = "0000000000000000000000000000000000000aaa";

fn clash(path: &str) -> ConflictFile {
    ConflictFile { path: path.to_string(), conflict_type: ConflictKind::Content }
}

fn begin(strategy: PullStrategy) -> PullSession {
    pull_from_remote(OperationState::Clean, false, Some("main".to_string()), HEAD, "origin", strategy)
        .unwrap()
}

fn fetched(strategy: PullStrategy, bits: u32) -> PullSession {
    let mut pull = begin(strategy);
    pull.advance(PullEvent::Fetched { tip: TIP.to_string() });
    pull.advance(PullEvent::Analyzed { bits });
    pull
}

#[test]
fn the_analysis_flags_are_those_of_the_store() {
    assert_eq!(ANALYSIS_UP_TO_DATE, git2::MergeAnalysis::ANALYSIS_UP_TO_DATE.bits());
    assert_eq!(ANALYSIS_FASTFORWARD, git2::MergeAnalysis::ANALYSIS_FASTFORWARD.bits());
    assert_eq!(Relation::classify(ANALYSIS_UP_TO_DATE), Relation::UpToDate);
    assert_eq!(Relation::classify(ANALYSIS_UP_TO_DATE | ANALYSIS_FASTFORWARD), Relation::UpToDate);
    assert_eq!(Relation::classify(ANALYSIS_FASTFORWARD | 1), Relation::FastForward);
    assert_eq!(Relation::classify(1), Relation::Diverged);
    assert_eq!(Relation::classify(0), Relation::Diverged);
    assert_eq!(Relation::classify(8), Relation::Diverged);
}

#[test]
fn a_pull_is_refused_before_anything_is_fetched() {
    let branch = Some("main".to_string());
    assert_eq!(
        pull_from_remote(OperationState::Rebase, true, None, HEAD, "origin", PullStrategy::Merge)
            .unwrap_err(),
        "Another operation is already in progress. Finish or abort it first."
    );
    assert_eq!(
        pull_from_remote(OperationState::Clean, true, branch, HEAD, "origin", PullStrategy::Merge)
            .unwrap_err(),
        "Working directory has uncommitted changes. Commit or stash them before pulling."
    );
    assert_eq!(
        pull_from_remote(OperationState::Clean, false, None, HEAD, "origin", PullStrategy::Merge)
            .unwrap_err(),
        "Failed to get branch name"
    );
}

#[test]
fn a_pull_begins_by_fetching_the_current_branch() {
    let pull = begin(PullStrategy::Merge);
    assert_eq!(pull.state, PullState::Fetching);
    assert_eq!(pull.route, Route::Undecided);
    match pull.command() {
        PullCommand::Fetch { remote, branch } => {
            assert_eq!(remote, "origin");
            assert_eq!(branch, "main");
        }
        other => panic!("expected Fetch, got {:?}", other),
    }
    assert!(pull.outcome().is_none());
}

#[test]
fn an_up_to_date_branch_needs_nothing() {
    let pull = fetched(PullStrategy::Rebase, ANALYSIS_UP_TO_DATE);
    assert_eq!(pull.state, PullState::Done);
    assert!(matches!(pull.command(), PullCommand::Wait));
    let result = pull.outcome().unwrap().unwrap();
    assert!(result.success);
    assert!(result.conflicts.is_empty());
    assert_eq!(result.commits_received, 0);
    assert_eq!(result.message, "Already up to date");
}

#[test]
fn a_fast_forward_moves_the_branch_and_writes_no_commit() {
    for strategy in [PullStrategy::Merge, PullStrategy::Rebase] {
        let mut pull = fetched(strategy, ANALYSIS_FASTFORWARD);
        let mut commands = Vec::new();
        while pull.outcome().is_none() {
            let command = pull.command();
            match &command {
                PullCommand::FastForward { refname, target } => {
                    assert_eq!(refname, "refs/heads/main");
                    assert_eq!(target, TIP);
                }
                other => panic!("a fast-forward asked for {:?}", other),
            }
            commands.push(command);
            pull.advance(PullEvent::Moved);
        }
        assert_eq!(commands.len(), 1);
        assert_eq!(pull.route, Route::FastForward);
        assert_eq!(pull.tip, TIP);
        let result = pull.outcome().unwrap().unwrap();
        assert!(result.success);
        assert_eq!(result.commits_received, 1);
        assert_eq!(result.message, "Fast-forward merge completed");
    }
}

#[test]
fn a_clean_merge_is_committed_with_two_parents_and_cleaned_up() {
    let mut pull = fetched(PullStrategy::Merge, 1);
    match pull.command() {
        PullCommand::Merge { tip } => assert_eq!(tip, TIP),
        other => panic!("expected Merge, got {:?}", other),
    }
    pull.advance(PullEvent::Merged { conflicts: vec![] });
    match pull.command() {
        PullCommand::CommitMerge { message, theirs } => {
            assert_eq!(message, "Merge branch 'main' of remote");
            assert_eq!(theirs, TIP);
        }
        other => panic!("expected CommitMerge, got {:?}", other),
    }
    pull.advance(PullEvent::Committed);
    assert!(matches!(pull.command(), PullCommand::Cleanup));
    pull.advance(PullEvent::Cleaned);
    let result = pull.outcome().unwrap().unwrap();
    assert!(result.success);
    assert_eq!(result.commits_received, 1);
    assert_eq!(result.message, "Merge completed successfully");
}

#[test]
fn a_conflicted_merge_is_reported_and_left_open() {
    let mut pull = fetched(PullStrategy::Merge, 1);
    pull.advance(PullEvent::Merged { conflicts: vec![clash("a.txt"), clash("b.txt")] });
    assert_eq!(pull.state, PullState::Done);
    assert!(matches!(pull.command(), PullCommand::Wait));
    let result = pull.outcome().unwrap().unwrap();
    assert!(!result.success);
    assert_eq!(result.conflicts.len(), 2);
    assert_eq!(result.conflicts[1].path, "b.txt");
    assert_eq!(result.commits_received, 0);
    assert_eq!(result.message, "Merge has 2 conflict(s). Please resolve them manually.");
}

#[test]
fn a_rebase_replays_every_local_commit() {
    let mut pull = fetched(PullStrategy::Rebase, 1);
    match pull.command() {
        PullCommand::BeginRebase { onto } => assert_eq!(onto, TIP),
        other => panic!("expected BeginRebase, got {:?}", other),
    }
    pull.advance(PullEvent::Begun);
    for _ in 0..3 {
        assert!(matches!(pull.command(), PullCommand::ReplayNext));
        pull.advance(PullEvent::Applied);
    }
    pull.advance(PullEvent::Exhausted);
    assert!(matches!(pull.command(), PullCommand::FinishRebase));
    pull.advance(PullEvent::Finished);
    let result = pull.outcome().unwrap().unwrap();
    assert!(result.success);
    assert_eq!(result.commits_received, 3);
    assert_eq!(result.message, "Rebase completed successfully (3 commits applied)");
}

#[test]
fn a_conflicted_rebase_is_aborted_as_a_whole() {
    let mut pull = fetched(PullStrategy::Rebase, 1);
    pull.advance(PullEvent::Begun);
    pull.advance(PullEvent::Applied);
    pull.advance(PullEvent::Conflicted { conflicts: vec![clash("a.txt")] });
    assert_eq!(pull.state, PullState::AbortingRebase);
    assert!(matches!(pull.command(), PullCommand::AbortRebase));
    assert!(pull.outcome().is_none());
    pull.advance(PullEvent::Aborted);
    let result = pull.outcome().unwrap().unwrap();
    assert!(!result.success);
    assert_eq!(result.conflicts.len(), 1);
    assert_eq!(result.commits_received, 0);
    assert_eq!(result.message, "Rebase failed with 1 conflict(s). The rebase has been aborted.");
}

#[test]
fn a_failed_replay_is_aborted_and_is_an_error() {
    let mut pull = fetched(PullStrategy::Rebase, 1);
    pull.advance(PullEvent::Begun);
    pull.advance(PullEvent::Failed { reason: "bad object".to_string() });
    assert!(matches!(pull.command(), PullCommand::AbortRebase));
    pull.advance(PullEvent::Aborted);
    assert_eq!(pull.state, PullState::Failed);
    assert_eq!(
        pull.outcome().unwrap().unwrap_err(),
        "Failed to apply commit during rebase: bad object"
    );
}

#[test]
fn every_failure_is_surfaced_with_its_step() {
    let mut pull = begin(PullStrategy::Merge);
    pull.advance(PullEvent::Failed { reason: "no network".to_string() });
    assert_eq!(pull.outcome().unwrap().unwrap_err(), "Failed to fetch from remote: no network");

    let mut pull = begin(PullStrategy::Merge);
    pull.advance(PullEvent::Fetched { tip: TIP.to_string() });
    pull.advance(PullEvent::Failed { reason: "x".to_string() });
    assert_eq!(pull.outcome().unwrap().unwrap_err(), "Failed to analyze merge: x");

    let mut pull = fetched(PullStrategy::Merge, ANALYSIS_FASTFORWARD);
    pull.advance(PullEvent::Failed { reason: "x".to_string() });
    assert_eq!(pull.outcome().unwrap().unwrap_err(), "Failed to fast-forward: x");

    let mut pull = fetched(PullStrategy::Merge, 1);
    pull.advance(PullEvent::Failed { reason: "x".to_string() });
    assert_eq!(pull.outcome().unwrap().unwrap_err(), "Merge failed: x");

    let mut pull = fetched(PullStrategy::Merge, 1);
    pull.advance(PullEvent::Merged { conflicts: vec![] });
    pull.advance(PullEvent::Failed { reason: "x".to_string() });
    assert_eq!(pull.outcome().unwrap().unwrap_err(), "Failed to create merge commit: x");

    let mut pull = fetched(PullStrategy::Merge, 1);
    pull.advance(PullEvent::Merged { conflicts: vec![] });
    pull.advance(PullEvent::Committed);
    pull.advance(PullEvent::Failed { reason: "x".to_string() });
    assert_eq!(pull.outcome().unwrap().unwrap_err(), "Failed to cleanup state: x");

    let mut pull = fetched(PullStrategy::Rebase, 1);
    pull.advance(PullEvent::Failed { reason: "x".to_string() });
    assert_eq!(pull.outcome().unwrap().unwrap_err(), "Failed to initialize rebase: x");

    let mut pull = fetched(PullStrategy::Rebase, 1);
    pull.advance(PullEvent::Begun);
    pull.advance(PullEvent::Exhausted);
    pull.advance(PullEvent::Failed { reason: "x".to_string() });
    assert_eq!(pull.outcome().unwrap().unwrap_err(), "Failed to finish rebase: x");

    let mut pull = fetched(PullStrategy::Rebase, 1);
    pull.advance(PullEvent::Begun);
    pull.advance(PullEvent::Conflicted { conflicts: vec![clash("a")] });
    pull.advance(PullEvent::Failed { reason: "x".to_string() });
    assert_eq!(pull.outcome().unwrap().unwrap_err(), "Failed to abort rebase: x");
}

#[test]
fn an_answer_that_was_not_asked_for_fails_the_pull() {
    let mut pull = begin(PullStrategy::Merge);
    pull.advance(PullEvent::Committed);
    assert_eq!(pull.state, PullState::Failed);
    assert_eq!(
        pull.outcome().unwrap().unwrap_err(),
        "Internal error: the repository reported a step that the pull did not ask for"
    );
    pull.advance(PullEvent::Fetched { tip: TIP.to_string() });
    assert_eq!(pull.state, PullState::Failed);
}

#[test]
fn a_pull_whose_route_does_not_fit_its_state_is_not_well_formed() {
    let mut pull = begin(PullStrategy::Merge);
    assert!(pull.is_well_formed());
    pull.route = Route::Merge;
    assert!(!pull.is_well_formed());
    let mut pull = fetched(PullStrategy::Rebase, 1);
    assert!(pull.is_well_formed());
    pull.state = PullState::CommittingMerge;
    assert!(!pull.is_well_formed());
    pull.state = PullState::Failed;
    assert!(pull.is_well_formed());
}

#[test]
fn a_merge_left_open_by_a_conflicted_pull_can_be_aborted() {
    let mut pull = fetched(PullStrategy::Merge, 1);
    pull.advance(PullEvent::Merged { conflicts: vec![clash("a.txt")] });
    assert_eq!(pull.state, PullState::Done);
    assert_eq!(pull.original_head, HEAD);
    match pull.abort_merge(OperationState::Merge).unwrap() {
        PullCommand::AbortMerge { head } => assert_eq!(head, HEAD),
        other => panic!("expected AbortMerge, got {:?}", other),
    }
    assert_eq!(pull.state, PullState::AbortingMerge);
    assert!(pull.outcome().is_none());
    match pull.command() {
        PullCommand::AbortMerge { head } => assert_eq!(head, HEAD),
        other => panic!("expected AbortMerge, got {:?}", other),
    }
    pull.advance(PullEvent::Restored);
    assert_eq!(pull.state, PullState::MergeAborted);
    assert!(pull.is_well_formed());
    assert!(matches!(pull.command(), PullCommand::Wait));
    let result = pull.outcome().unwrap().unwrap();
    assert!(result.success);
    assert!(result.conflicts.is_empty());
    assert_eq!(result.commits_received, 0);
    assert_eq!(result.message, "Merge aborted. Repository returned to its state before the pull.");
    assert_eq!(pull.abort_merge(OperationState::Merge).unwrap_err(), "No merge in progress");
}

#[test]
fn only_an_open_merge_can_be_aborted() {
    let mut clean = fetched(PullStrategy::Merge, 1);
    clean.advance(PullEvent::Merged { conflicts: vec![] });
    assert_eq!(clean.abort_merge(OperationState::Merge).unwrap_err(), "No merge in progress");
    assert_eq!(clean.state, PullState::CommittingMerge);

    let mut open = fetched(PullStrategy::Merge, 1);
    open.advance(PullEvent::Merged { conflicts: vec![clash("a")] });
    assert_eq!(open.abort_merge(OperationState::Clean).unwrap_err(), "No merge in progress");
    assert_eq!(open.abort_merge(OperationState::Rebase).unwrap_err(), "No merge in progress");
    assert_eq!(open.state, PullState::Done);

    let mut rebased = fetched(PullStrategy::Rebase, 1);
    rebased.advance(PullEvent::Begun);
    rebased.advance(PullEvent::Conflicted { conflicts: vec![clash("a")] });
    rebased.advance(PullEvent::Aborted);
    assert_eq!(rebased.abort_merge(OperationState::Merge).unwrap_err(), "No merge in progress");
}

#[test]
fn a_failed_merge_abort_is_an_error() {
    let mut pull = fetched(PullStrategy::Merge, 1);
    pull.advance(PullEvent::Merged { conflicts: vec![clash("a.txt")] });
    pull.abort_merge(OperationState::Merge).unwrap();
    pull.advance(PullEvent::Failed { reason: "locked".to_string() });
    assert_eq!(pull.state, PullState::Failed);
    assert_eq!(pull.outcome().unwrap().unwrap_err(), "Failed to abort merge: locked");
}
