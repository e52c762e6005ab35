use gitflow_core::push::{
    check_lease, plan_push, push_refspec, push_to_remote, PushFailure, PushMode, PushPlan,
    PushReport,
};

#[test]
fn the_mode_follows_the_switches() {
    assert_eq!(PushMode::from_flags(false, false), PushMode::Plain);
    assert_eq!(PushMode::from_flags(true, false), PushMode::Force);
    assert_eq!(PushMode::from_flags(false, true), PushMode::ForceWithLease);
    assert_eq!(PushMode::from_flags(true, true), PushMode::ForceWithLease);
}

#[test]
fn only_forced_pushes_carry_the_plus() {
    assert_eq!(push_refspec("main", PushMode::Plain), "refs/heads/main:refs/heads/main");
    assert_eq!(push_refspec("main", PushMode::Force), "+refs/heads/main:refs/heads/main");
    assert_eq!(
        push_refspec("feature/x", PushMode::ForceWithLease),
        "+refs/heads/feature/x:refs/heads/feature/x"
    );
}

#[test]
fn a_lease_holds_only_while_the_remote_has_not_moved() {
    let a = Some("aaaa".to_string());
    let b = Some("bbbb".to_string());
    assert!(check_lease(&a, &a.clone()));
    assert!(check_lease(&None, &None));
    assert!(!check_lease(&a, &b));
    assert!(!check_lease(&a, &None));
    assert!(!check_lease(&None, &b));
}

#[test]
fn a_broken_lease_sends_nothing_and_is_a_rejection() {
    let seen = Some("aaaa".to_string());
    let now = Some("bbbb".to_string());
    match plan_push("main", PushMode::ForceWithLease, &seen, &now) {
        PushPlan::Refuse { result } => {
            assert!(!result.success);
            assert!(result.rejected);
            assert_eq!(result.rejection_reason, "refs/heads/main: stale info");
            assert_eq!(result.bytes_sent, 0);
            assert_eq!(
                result.message,
                "Push rejected: the remote branch moved since it was last fetched. Fetch first."
            );
        }
        other => panic!("expected Refuse, got {:?}", other),
    }
    match plan_push("main", PushMode::ForceWithLease, &seen, &seen.clone()) {
        PushPlan::Send { refspec } => assert_eq!(refspec, "+refs/heads/main:refs/heads/main"),
        other => panic!("expected Send, got {:?}", other),
    }
    match plan_push("main", PushMode::Force, &seen, &now) {
        PushPlan::Send { refspec } => assert_eq!(refspec, "+refs/heads/main:refs/heads/main"),
        other => panic!("expected Send, got {:?}", other),
    }
    match plan_push("main", PushMode::Plain, &seen, &now) {
        PushPlan::Send { refspec } => assert_eq!(refspec, "refs/heads/main:refs/heads/main"),
        other => panic!("expected Send, got {:?}", other),
    }
}

#[test]
fn an_accepted_push_is_a_success() {
    let result =
        push_to_remote("origin", "main", &PushReport::Accepted { bytes_sent: 2048 }).unwrap();
    assert!(result.success);
    assert!(!result.rejected);
    assert_eq!(result.rejection_reason, "");
    assert_eq!(result.bytes_sent, 2048);
    assert_eq!(result.message, "Successfully pushed to origin/main");
}

#[test]
fn a_refused_reference_is_a_rejection() {
    let report = PushReport::Refused {
        refname: "refs/heads/main".to_string(),
        status: "non-fast-forward".to_string(),
    };
    let result = push_to_remote("origin", "main", &report).unwrap();
    assert!(!result.success);
    assert!(result.rejected);
    assert_eq!(result.rejection_reason, "refs/heads/main: non-fast-forward");
    assert_eq!(result.bytes_sent, 0);
    assert_eq!(result.message, "Push was rejected by remote");
}

#[test]
fn pushing_onto_a_diverged_remote_without_force_is_rejected_not_fatal() {
    for words in [
        "cannot push non-fastforwardable reference",
        "cannot push because a reference that you are trying to update on the remote contains commits that are not present locally.",
        "anything at all",
    ] {
        let report =
            PushReport::Failed { kind: PushFailure::NotFastForward, message: words.to_string() };
        let outcome = push_to_remote("origin", "main", &report);
        assert!(outcome.is_ok());
        let result = outcome.unwrap();
        assert!(result.rejected);
        assert!(!result.success);
        assert_eq!(result.rejection_reason, words);
        assert_eq!(result.bytes_sent, 0);
        assert_eq!(
            result.message,
            "Push rejected: Remote has newer commits. Pull first or use force push."
        );
    }
    let silent = PushReport::Failed { kind: PushFailure::NotFastForward, message: String::new() };
    let result = push_to_remote("origin", "main", &silent).unwrap();
    assert!(result.rejected);
    assert!(!result.success);
    assert_eq!(result.rejection_reason, "non-fast-forward");
}

#[test]
fn a_transport_failure_is_fatal() {
    for kind in [PushFailure::Auth, PushFailure::Transport, PushFailure::Other] {
        let report = PushReport::Failed { kind, message: "request rejected: no access".to_string() };
        assert_eq!(
            push_to_remote("origin", "main", &report).unwrap_err(),
            "Push failed: request rejected: no access"
        );
    }
}
