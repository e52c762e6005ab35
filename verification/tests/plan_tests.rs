use gitflow_core::rebase_plan::{
    prepare_interactive_rebase, validate_rebase_order, ActionSummary, RebaseAction,
    RebaseInstruction,
};

fn step(hash: &str, action: &str) -> RebaseInstruction {
    RebaseInstruction { hash: hash.to_string(), action: action.to_string(), new_message: None }
}

fn reword(hash: &str, message: &str) -> RebaseInstruction {
    RebaseInstruction {
        hash: hash.to_string(),
        action: "reword".to_string(),
        new_message: Some(message.to_string()),
    }
}

#[test]
fn action_words_are_read_and_written() {
    for action in [
        RebaseAction::Pick,
        RebaseAction::Squash,
        RebaseAction::Fixup,
        RebaseAction::Drop,
        RebaseAction::Reword,
        RebaseAction::Edit,
    ] {
        assert_eq!(RebaseAction::from_label(action.as_str()), Some(action));
    }
    assert_eq!(RebaseAction::from_label("pick"), Some(RebaseAction::Pick));
    assert_eq!(RebaseAction::from_label("Pick"), None);
    assert_eq!(RebaseAction::from_label(""), None);
    assert_eq!(RebaseAction::from_label("exec"), None);
    assert!(RebaseAction::Pick.is_starter());
    assert!(RebaseAction::Reword.is_starter());
    assert!(RebaseAction::Edit.is_starter());
    assert!(!RebaseAction::Drop.is_starter());
    assert!(RebaseAction::Squash.is_meld());
    assert!(RebaseAction::Fixup.is_meld());
    assert!(!RebaseAction::Pick.is_meld());
}

#[test]
fn an_empty_plan_is_reported_alone() {
    let result = validate_rebase_order(&vec![], &vec![], true);
    assert!(!result.is_valid);
    assert_eq!(result.errors, vec!["No rebase instructions provided".to_string()]);
    assert!(result.warnings.is_empty());
}

#[test]
fn a_plain_plan_is_valid() {
    let plan = vec![step("aaaaaaa1", "pick"), step("bbbbbbb2", "squash"), step("ccccccc3", "pick")];
    let result = validate_rebase_order(&plan, &vec![], true);
    assert!(result.is_valid);
    assert!(result.errors.is_empty());
    assert!(result.warnings.is_empty());
}

#[test]
fn the_first_instruction_must_be_a_pick_and_the_error_names_the_action() {
    for action in ["squash", "fixup", "drop", "reword", "edit"] {
        let plan = vec![step("aaaaaaa1", action), step("bbbbbbb2", "pick")];
        let result = validate_rebase_order(&plan, &vec![], false);
        assert!(!result.is_valid);
        assert_eq!(
            result.errors[0],
            format!("First commit must be 'pick'. Cannot {} the first commit.", action)
        );
        assert!(result.errors[0].contains(action));
    }
}

#[test]
fn a_squash_may_not_follow_a_drop_squash_or_fixup() {
    let plan = vec![
        step("aaaaaaa1", "pick"),
        step("bbbbbbb2xyz", "drop"),
        step("ccccccc3xyz", "squash"),
        step("ddddddd4xyz", "fixup"),
        step("eeeeeee5", "pick"),
        step("fffffff6", "fixup"),
    ];
    let result = validate_rebase_order(&plan, &vec![], false);
    assert!(!result.is_valid);
    assert_eq!(
        result.errors,
        vec![
            "Commit ccccccc at position 3 cannot be 'squash' because the previous commit is 'drop'. Squash and fixup require a 'pick' commit before them.".to_string(),
            "Commit ddddddd at position 4 cannot be 'fixup' because the previous commit is 'squash'. Squash and fixup require a 'pick' commit before them.".to_string(),
        ]
    );
}

#[test]
fn a_squash_may_follow_a_reword_or_an_edit() {
    let plan = vec![
        step("aaaaaaa1", "pick"),
        reword("bbbbbbb2", "better"),
        step("ccccccc3", "squash"),
        step("ddddddd4", "edit"),
        step("eeeeeee5", "fixup"),
    ];
    let result = validate_rebase_order(&plan, &vec![], false);
    assert!(result.is_valid);
    assert!(result.errors.is_empty());
}

#[test]
fn a_plan_of_drops_only_is_rejected() {
    let plan = vec![step("aaaaaaa1", "drop"), step("bbbbbbb2", "drop")];
    let result = validate_rebase_order(&plan, &vec![], false);
    assert!(!result.is_valid);
    assert_eq!(
        result.errors,
        vec![
            "First commit must be 'pick'. Cannot drop the first commit.".to_string(),
            "Cannot drop all commits. At least one commit must be kept.".to_string(),
        ]
    );
}

#[test]
fn commits_that_do_not_resolve_and_unknown_actions_are_reported_last() {
    let plan = vec![step("abc", "pick"), step("1234567", "explode"), step("feed", "pick")];
    let unresolved = vec!["feed".to_string(), "abc".to_string(), "other".to_string()];
    let result = validate_rebase_order(&plan, &unresolved, false);
    assert!(!result.is_valid);
    assert_eq!(
        result.errors,
        vec![
            "Commit abc at position 1 could not be found in the repository".to_string(),
            "Commit feed at position 3 could not be found in the repository".to_string(),
            "Unknown action 'explode' at position 2. Valid actions are: pick, squash, fixup, drop, reword, edit".to_string(),
        ]
    );
}

#[test]
fn a_well_shaped_plan_with_a_commit_that_does_not_resolve_is_invalid() {
    let plan = vec![step("aaaaaaa1", "pick"), step("bbbbbbb2", "squash")];
    assert!(validate_rebase_order(&plan, &vec![], true).is_valid);
    let result = validate_rebase_order(&plan, &vec!["bbbbbbb2".to_string()], true);
    assert!(!result.is_valid);
    assert_eq!(
        result.errors,
        vec!["Commit bbbbbbb2 at position 2 could not be found in the repository".to_string()]
    );
    assert_eq!(
        prepare_interactive_rebase(&plan, &vec!["bbbbbbb2".to_string()], true).unwrap_err(),
        "Invalid rebase instructions: Commit bbbbbbb2 at position 2 could not be found in the repository"
    );
}

#[test]
fn a_short_hash_that_resolves_is_accepted() {
    let plan = vec![step("ab1", "pick"), step("f", "pick")];
    let result = validate_rebase_order(&plan, &vec![], false);
    assert!(result.is_valid);
    assert!(result.errors.is_empty());
}

#[test]
fn a_reword_without_a_message_is_warned_about() {
    let plan = vec![step("aaaaaaa1", "pick"), step("bbbbbbb2", "reword"), reword("ccccccc3", "x")];
    let result = validate_rebase_order(&plan, &vec![], true);
    assert!(result.is_valid);
    assert_eq!(
        result.warnings,
        vec![
            "Commit bbbbbbb at position 2 has 'reword' action but no new message provided. A placeholder message will be used.".to_string()
        ]
    );
}

#[test]
fn volume_warnings_need_an_opened_repository() {
    let mut plan = vec![step("aaaaaaa0", "pick")];
    for _ in 0..4 {
        plan.push(step("ddddddd1", "drop"));
    }
    for _ in 0..3 {
        plan.push(step("ppppppp2", "pick"));
        plan.push(step("sssssss3", "squash"));
        plan.push(step("ppppppp4", "pick"));
        plan.push(step("fffffff5", "fixup"));
    }
    let opened = validate_rebase_order(&plan, &vec![], true);
    assert!(opened.is_valid);
    assert_eq!(
        opened.warnings,
        vec![
            "Dropping 4 commits. This might cause conflicts if later commits depend on them."
                .to_string(),
            "Squashing/fixuping many commits. Review carefully to ensure commit messages are meaningful."
                .to_string(),
        ]
    );
    let closed = validate_rebase_order(&plan, &vec![], false);
    assert!(closed.is_valid);
    assert!(closed.warnings.is_empty());
}

#[test]
fn three_drops_and_five_folds_are_not_warned_about() {
    let mut plan = vec![step("aaaaaaa0", "pick")];
    for _ in 0..3 {
        plan.push(step("ddddddd1", "drop"));
    }
    for _ in 0..5 {
        plan.push(step("ppppppp2", "pick"));
        plan.push(step("sssssss3", "squash"));
    }
    assert!(validate_rebase_order(&plan, &vec![], true).warnings.is_empty());
}

#[test]
fn the_preview_counts_actions_and_resulting_commits() {
    let plan = vec![
        step("aaaaaaa1", "pick"),
        step("bbbbbbb2", "squash"),
        step("ccccccc3", "drop"),
        reword("ddddddd4", "new words"),
        step("eeeeeee5", "fixup"),
        step("fffffff6", "edit"),
    ];
    let preview = prepare_interactive_rebase(&plan, &vec![], true).unwrap();
    assert_eq!(preview.total_commits, 6);
    assert_eq!(
        preview.actions_summary,
        ActionSummary { pick: 1, squash: 1, fixup: 1, drop: 1, reword: 1, edit: 1 }
    );
    assert!(preview.can_proceed);
    assert_eq!(preview.actions_summary.entries().len(), 6);
    assert_eq!(
        preview.warnings,
        vec![
            "This rebase will change 6 commits into 3 commits (1 dropped, 2 squashed/fixuped)"
                .to_string(),
            "  Interactive rebase rewrites Git history. Only rebase commits that haven't been pushed."
                .to_string(),
        ]
    );
}

#[test]
fn the_preview_of_picks_only_warns_of_rewriting_alone() {
    let plan = vec![step("aaaaaaa1", "pick"), step("bbbbbbb2", "pick")];
    let preview = prepare_interactive_rebase(&plan, &vec![], false).unwrap();
    assert_eq!(preview.total_commits, 2);
    assert_eq!(preview.actions_summary.pick, 2);
    assert_eq!(preview.actions_summary.entries(), vec![(RebaseAction::Pick, 2)]);
    let mixed = ActionSummary { pick: 1, squash: 0, fixup: 3, drop: 0, reword: 0, edit: 2 };
    assert_eq!(
        mixed.entries(),
        vec![(RebaseAction::Pick, 1), (RebaseAction::Fixup, 3), (RebaseAction::Edit, 2)]
    );
    assert_eq!(
        preview.warnings,
        vec![
            "  Interactive rebase rewrites Git history. Only rebase commits that haven't been pushed."
                .to_string()
        ]
    );
}

#[test]
fn the_preview_of_an_invalid_plan_joins_every_error() {
    let plan = vec![step("aaaaaaa1", "drop")];
    assert_eq!(
        prepare_interactive_rebase(&plan, &vec![], true).unwrap_err(),
        "Invalid rebase instructions: First commit must be 'pick'. Cannot drop the first commit., Cannot drop all commits. At least one commit must be kept."
    );
    assert_eq!(
        prepare_interactive_rebase(&vec![], &vec![], true).unwrap_err(),
        "Invalid rebase instructions: No rebase instructions provided"
    );
}

#[test]
fn positions_with_several_digits_are_written_in_full() {
    let mut plan = vec![step("aaaaaaa0", "pick")];
    for _ in 0..120 {
        plan.push(step("ppppppp1", "pick"));
    }
    plan.push(step("zzzzzzz9", "bogus"));
    let result = validate_rebase_order(&plan, &vec![], false);
    assert_eq!(
        result.errors,
        vec![
            "Unknown action 'bogus' at position 122. Valid actions are: pick, squash, fixup, drop, reword, edit".to_string()
        ]
    );
}
