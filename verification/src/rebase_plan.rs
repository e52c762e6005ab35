//! Rewrite plans: the instructions of an interactive rebase, the rules a
//! plan must meet before it may run, and the preview of what it will do.

use crate::text::{append_decimal, decimal, join, joined, mentions, occurs_at, prefix, push_text,
    same_text, take_chars};
use vstd::prelude::*;

verus! {

/// What an instruction does with its commit.
#[derive(Clone, Copy, Debug, PartialEq, Eq, Structural)]
pub enum RebaseAction {
    /// Replay the commit unchanged.
    Pick,
    /// Fold the commit into the one before it, keeping its message.
    Squash,
    /// Fold the commit into the one before it, discarding its message.
    Fixup,
    /// Leave the commit out.
    Drop,
    /// Replay the commit under another message.
    Reword,
    /// Replay the commit, then pause for amendment.
    Edit,
}

impl RebaseAction {
    /// The word that names the action in a plan.
    pub open spec fn label(self) -> Seq<char> {
        match self {
            RebaseAction::Pick => "pick"@,
            RebaseAction::Squash => "squash"@,
            RebaseAction::Fixup => "fixup"@,
            RebaseAction::Drop => "drop"@,
            RebaseAction::Reword => "reword"@,
            RebaseAction::Edit => "edit"@,
        }
    }

    /// The word that names the action in a plan.
    pub fn as_str(self) -> (s: &'static str)
        ensures
            s@ == self.label(),
    {
        match self {
            RebaseAction::Pick => "pick",
            RebaseAction::Squash => "squash",
            RebaseAction::Fixup => "fixup",
            RebaseAction::Drop => "drop",
            RebaseAction::Reword => "reword",
            RebaseAction::Edit => "edit",
        }
    }

    /// The action that a word names, if it names one.
    pub open spec fn parse(word: Seq<char>) -> Option<RebaseAction> {
        if word == "pick"@ {
            Some(RebaseAction::Pick)
        } else if word == "squash"@ {
            Some(RebaseAction::Squash)
        } else if word == "fixup"@ {
            Some(RebaseAction::Fixup)
        } else if word == "drop"@ {
            Some(RebaseAction::Drop)
        } else if word == "reword"@ {
            Some(RebaseAction::Reword)
        } else if word == "edit"@ {
            Some(RebaseAction::Edit)
        } else {
            None
        }
    }

    /// The action that a word names, if it names one.
    pub fn from_label(word: &str) -> (r: Option<RebaseAction>)
        ensures
            r == Self::parse(word@),
    {
        if same_text(word, "pick") {
            Some(RebaseAction::Pick)
        } else if same_text(word, "squash") {
            Some(RebaseAction::Squash)
        } else if same_text(word, "fixup") {
            Some(RebaseAction::Fixup)
        } else if same_text(word, "drop") {
            Some(RebaseAction::Drop)
        } else if same_text(word, "reword") {
            Some(RebaseAction::Reword)
        } else if same_text(word, "edit") {
            Some(RebaseAction::Edit)
        } else {
            None
        }
    }

    /// The action begins a commit of the rewritten history.
    pub open spec fn starts_commit(self) -> bool {
        self == RebaseAction::Pick || self == RebaseAction::Reword || self == RebaseAction::Edit
    }

    /// The action folds its commit into the one before it.
    pub open spec fn melds(self) -> bool {
        self == RebaseAction::Squash || self == RebaseAction::Fixup
    }

    /// The action begins a commit of the rewritten history.
    pub fn is_starter(self) -> (r: bool)
        ensures
            r == self.starts_commit(),
    {
        match self {
            RebaseAction::Pick | RebaseAction::Reword | RebaseAction::Edit => true,
            _ => false,
        }
    }

    /// The action folds its commit into the one before it.
    pub fn is_meld(self) -> (r: bool)
        ensures
            r == self.melds(),
    {
        match self {
            RebaseAction::Squash | RebaseAction::Fixup => true,
            _ => false,
        }
    }
}

/// Every action is named by a word of its own: reading an action's word
/// gives the action back.
pub proof fn lemma_label_round_trip(action: RebaseAction)
    ensures
        RebaseAction::parse(action.label()) == Some(action),
{
    reveal_strlit("pick");
    reveal_strlit("squash");
    reveal_strlit("fixup");
    reveal_strlit("drop");
    reveal_strlit("reword");
    reveal_strlit("edit");
    assert("pick"@[0] == 'p' && "squash"@[0] == 's' && "fixup"@[0] == 'f' && "drop"@[0] == 'd'
        && "reword"@[0] == 'r' && "edit"@[0] == 'e');
}

/// One instruction of a plan, as the caller writes it.
#[derive(Clone, Debug)]
pub struct RebaseInstruction {
    pub hash: String,
    pub action: String,
    pub new_message: Option<String>,
}

/// What a `RebaseInstruction` holds, as mathematical values.
pub struct InstructionModel {
    pub hash: Seq<char>,
    pub action: Seq<char>,
    pub new_message: Option<Seq<char>>,
}

impl DeepView for RebaseInstruction {
    type V = InstructionModel;

    open spec fn deep_view(&self) -> InstructionModel {
        InstructionModel {
            hash: self.hash@,
            action: self.action@,
            new_message: self.new_message.deep_view(),
        }
    }
}

/// The action of the instruction at `i`, where its word names one.
pub open spec fn kind_at(plan: Seq<InstructionModel>, i: int) -> Option<RebaseAction> {
    RebaseAction::parse(plan[i].action)
}

/// The outcome of holding a plan to the rules.
#[derive(Clone, Debug)]
pub struct ValidationResult {
    pub is_valid: bool,
    pub errors: Vec<String>,
    pub warnings: Vec<String>,
}

pub open spec fn empty_plan_message() -> Seq<char> {
    "No rebase instructions provided"@
}

pub open spec fn first_not_pick_message(action: Seq<char>) -> Seq<char> {
    "First commit must be 'pick'. Cannot "@ + action + " the first commit."@
}

pub open spec fn misplaced_message(
    hash: Seq<char>,
    position: nat,
    action: Seq<char>,
    previous: Seq<char>,
) -> Seq<char> {
    "Commit "@ + prefix(hash, 7) + " at position "@ + decimal(position) + " cannot be '"@ + action
        + "' because the previous commit is '"@ + previous
        + "'. Squash and fixup require a 'pick' commit before them."@
}

pub open spec fn all_dropped_message() -> Seq<char> {
    "Cannot drop all commits. At least one commit must be kept."@
}

pub open spec fn missing_commit_message(hash: Seq<char>, position: nat) -> Seq<char> {
    "Commit "@ + hash + " at position "@ + decimal(position)
        + " could not be found in the repository"@
}

pub open spec fn unknown_action_message(action: Seq<char>, position: nat) -> Seq<char> {
    "Unknown action '"@ + action + "' at position "@ + decimal(position)
        + ". Valid actions are: pick, squash, fixup, drop, reword, edit"@
}

pub open spec fn reword_warning(hash: Seq<char>, position: nat) -> Seq<char> {
    "Commit "@ + prefix(hash, 7) + " at position "@ + decimal(position)
        + " has 'reword' action but no new message provided. A placeholder message will be used."@
}

pub open spec fn many_drops_warning(count: nat) -> Seq<char> {
    "Dropping "@ + decimal(count)
        + " commits. This might cause conflicts if later commits depend on them."@
}

pub open spec fn many_melds_warning() -> Seq<char> {
    "Squashing/fixuping many commits. Review carefully to ensure commit messages are meaningful."@
}

fn build_first_not_pick(action: &str) -> (m: String)
    ensures
        m@ == first_not_pick_message(action@),
{
    let mut m = String::from_str("First commit must be 'pick'. Cannot ");
    m.append(action);
    m.append(" the first commit.");
    m
}

fn build_misplaced(hash: &str, position: usize, action: &str, previous: &str) -> (m: String)
    ensures
        m@ == misplaced_message(hash@, position as nat, action@, previous@),
{
    let short = take_chars(hash, 7);
    let mut m = String::from_str("Commit ");
    m.append(short.as_str());
    m.append(" at position ");
    append_decimal(&mut m, position);
    m.append(" cannot be '");
    m.append(action);
    m.append("' because the previous commit is '");
    m.append(previous);
    m.append("'. Squash and fixup require a 'pick' commit before them.");
    m
}

fn build_missing_commit(hash: &str, position: usize) -> (m: String)
    ensures
        m@ == missing_commit_message(hash@, position as nat),
{
    let mut m = String::from_str("Commit ");
    m.append(hash);
    m.append(" at position ");
    append_decimal(&mut m, position);
    m.append(" could not be found in the repository");
    m
}

fn build_unknown_action(action: &str, position: usize) -> (m: String)
    ensures
        m@ == unknown_action_message(action@, position as nat),
{
    let mut m = String::from_str("Unknown action '");
    m.append(action);
    m.append("' at position ");
    append_decimal(&mut m, position);
    m.append(". Valid actions are: pick, squash, fixup, drop, reword, edit");
    m
}

fn build_reword_warning(hash: &str, position: usize) -> (m: String)
    ensures
        m@ == reword_warning(hash@, position as nat),
{
    let short = take_chars(hash, 7);
    let mut m = String::from_str("Commit ");
    m.append(short.as_str());
    m.append(" at position ");
    append_decimal(&mut m, position);
    m.append(
        " has 'reword' action but no new message provided. A placeholder message will be used.",
    );
    m
}

fn build_many_drops(count: usize) -> (m: String)
    ensures
        m@ == many_drops_warning(count as nat),
{
    let mut m = String::from_str("Dropping ");
    append_decimal(&mut m, count);
    m.append(" commits. This might cause conflicts if later commits depend on them.");
    m
}

/// The instruction at `i` folds into an instruction that leaves nothing to
/// fold into: a squash or fixup directly after a drop, squash or fixup.
pub open spec fn misplaced(plan: Seq<InstructionModel>, i: int) -> bool {
    &&& 1 <= i < plan.len()
    &&& (kind_at(plan, i) == Some(RebaseAction::Squash) || kind_at(plan, i) == Some(
        RebaseAction::Fixup,
    ))
    &&& (kind_at(plan, i - 1) == Some(RebaseAction::Drop) || kind_at(plan, i - 1) == Some(
        RebaseAction::Squash,
    ) || kind_at(plan, i - 1) == Some(RebaseAction::Fixup))
}

/// Every instruction of the plan is a drop.
pub open spec fn all_dropped(plan: Seq<InstructionModel>) -> bool {
    forall|i: int| 0 <= i < plan.len() ==> kind_at(plan, i) == Some(RebaseAction::Drop)
}

/// The hash at `i` is one of those that the store could not resolve to a
/// commit.
pub open spec fn unresolved_at(
    plan: Seq<InstructionModel>,
    unresolved: Seq<Seq<char>>,
    i: int,
) -> bool {
    unresolved.contains(plan[i].hash)
}

/// The instruction at `i` rewords without giving a message.
pub open spec fn rewords_blindly(plan: Seq<InstructionModel>, i: int) -> bool {
    kind_at(plan, i) == Some(RebaseAction::Reword) && plan[i].new_message is None
}

/// The error for a first instruction that is not a pick.
pub open spec fn first_errors(plan: Seq<InstructionModel>) -> Seq<Seq<char>> {
    if plan.len() > 0 && kind_at(plan, 0) != Some(RebaseAction::Pick) {
        seq![first_not_pick_message(plan[0].action)]
    } else {
        Seq::empty()
    }
}

/// One error for each misplaced squash or fixup among the first `n`
/// instructions, in plan order.
pub open spec fn misplaced_errors(plan: Seq<InstructionModel>, n: nat) -> Seq<Seq<char>>
    decreases n,
{
    if n == 0 {
        Seq::empty()
    } else if misplaced(plan, n - 1) {
        misplaced_errors(plan, (n - 1) as nat).push(
            misplaced_message(plan[n - 1].hash, n, plan[n - 1].action, plan[n - 2].action),
        )
    } else {
        misplaced_errors(plan, (n - 1) as nat)
    }
}

/// The error for a plan that drops every commit.
pub open spec fn all_dropped_errors(plan: Seq<InstructionModel>) -> Seq<Seq<char>> {
    if all_dropped(plan) {
        seq![all_dropped_message()]
    } else {
        Seq::empty()
    }
}

/// One error for each of the first `n` instructions whose commit does not
/// resolve.
pub open spec fn missing_commit_errors(
    plan: Seq<InstructionModel>,
    unresolved: Seq<Seq<char>>,
    n: nat,
) -> Seq<Seq<char>>
    decreases n,
{
    if n == 0 {
        Seq::empty()
    } else if unresolved_at(plan, unresolved, n - 1) {
        missing_commit_errors(plan, unresolved, (n - 1) as nat).push(
            missing_commit_message(plan[n - 1].hash, n),
        )
    } else {
        missing_commit_errors(plan, unresolved, (n - 1) as nat)
    }
}

/// One error for each unknown action word among the first `n` instructions.
pub open spec fn unknown_action_errors(plan: Seq<InstructionModel>, n: nat) -> Seq<Seq<char>>
    decreases n,
{
    if n == 0 {
        Seq::empty()
    } else if kind_at(plan, n - 1) is None {
        unknown_action_errors(plan, (n - 1) as nat).push(
            unknown_action_message(plan[n - 1].action, n),
        )
    } else {
        unknown_action_errors(plan, (n - 1) as nat)
    }
}

/// One warning for each reword without a message among the first `n`
/// instructions.
pub open spec fn reword_warnings(plan: Seq<InstructionModel>, n: nat) -> Seq<Seq<char>>
    decreases n,
{
    if n == 0 {
        Seq::empty()
    } else if rewords_blindly(plan, n - 1) {
        reword_warnings(plan, (n - 1) as nat).push(reword_warning(plan[n - 1].hash, n))
    } else {
        reword_warnings(plan, (n - 1) as nat)
    }
}

/// How many of the first `n` instructions have the action `action`.
pub open spec fn count_kind(plan: Seq<InstructionModel>, action: RebaseAction, n: nat) -> nat
    decreases n,
{
    if n == 0 {
        0
    } else if kind_at(plan, n - 1) == Some(action) {
        count_kind(plan, action, (n - 1) as nat) + 1
    } else {
        count_kind(plan, action, (n - 1) as nat)
    }
}

/// The warnings on how much a plan drops and folds. They are given only
/// where the repository could be opened.
pub open spec fn volume_warnings(plan: Seq<InstructionModel>, store_opened: bool) -> Seq<
    Seq<char>,
> {
    let drops = count_kind(plan, RebaseAction::Drop, plan.len());
    let melds = count_kind(plan, RebaseAction::Squash, plan.len()) + count_kind(
        plan,
        RebaseAction::Fixup,
        plan.len(),
    );
    let first = if store_opened && drops > 3 {
        seq![many_drops_warning(drops)]
    } else {
        Seq::empty()
    };
    if store_opened && melds > 5 {
        first.push(many_melds_warning())
    } else {
        first
    }
}

/// Every rule that a plan breaks, one message each: an empty plan is
/// reported alone; otherwise a first instruction that is not a pick, each
/// misplaced squash or fixup, a plan that drops everything, each commit
/// that does not resolve and each unknown action word, in that order.
/// `unresolved` holds the hashes that the store could not resolve.
pub open spec fn plan_errors(plan: Seq<InstructionModel>, unresolved: Seq<Seq<char>>) -> Seq<
    Seq<char>,
> {
    if plan.len() == 0 {
        seq![empty_plan_message()]
    } else {
        first_errors(plan) + misplaced_errors(plan, plan.len()) + all_dropped_errors(plan)
            + missing_commit_errors(plan, unresolved, plan.len()) + unknown_action_errors(
            plan,
            plan.len(),
        )
    }
}

/// What a plan is warned about: each reword without a message, then how much
/// it drops and folds.
pub open spec fn plan_warnings(plan: Seq<InstructionModel>, store_opened: bool) -> Seq<
    Seq<char>,
> {
    if plan.len() == 0 {
        Seq::empty()
    } else {
        reword_warnings(plan, plan.len()) + volume_warnings(plan, store_opened)
    }
}

/// A plan that breaks no rule.
pub open spec fn valid_plan(plan: Seq<InstructionModel>, unresolved: Seq<Seq<char>>) -> bool {
    plan_errors(plan, unresolved).len() == 0
}

/// The action of every instruction, where its word names one.
pub fn parse_actions(instructions: &Vec<RebaseInstruction>) -> (kinds: Vec<Option<RebaseAction>>)
    ensures
        kinds@.len() == instructions@.len(),
        forall|i: int|
            0 <= i < kinds@.len() ==> kinds@[i] == #[trigger] kind_at(
                instructions.deep_view(),
                i,
            ),
{
    let mut kinds: Vec<Option<RebaseAction>> = Vec::new();
    let mut i: usize = 0;
    while i < instructions.len()
        invariant
            i <= instructions@.len(),
            kinds@.len() == i,
            forall|j: int|
                0 <= j < i ==> kinds@[j] == #[trigger] kind_at(instructions.deep_view(), j),
        decreases instructions@.len() - i,
    {
        let kind = RebaseAction::from_label(instructions[i].action.as_str());
        assert(instructions.deep_view()[i as int] == instructions@[i as int].deep_view());
        kinds.push(kind);
        i += 1;
    }
    kinds
}

/// How many of the actions are `action`.
pub fn count_actions(
    instructions: &Vec<RebaseInstruction>,
    kinds: &Vec<Option<RebaseAction>>,
    action: RebaseAction,
) -> (n: usize)
    requires
        kinds@.len() == instructions@.len(),
        forall|i: int|
            0 <= i < kinds@.len() ==> kinds@[i] == #[trigger] kind_at(
                instructions.deep_view(),
                i,
            ),
    ensures
        n == count_kind(instructions.deep_view(), action, instructions@.len()),
{
    let ghost plan = instructions.deep_view();
    let mut n: usize = 0;
    let mut i: usize = 0;
    while i < kinds.len()
        invariant
            i <= kinds@.len(),
            kinds@.len() == instructions@.len(),
            plan == instructions.deep_view(),
            forall|j: int| 0 <= j < kinds@.len() ==> kinds@[j] == #[trigger] kind_at(plan, j),
            n == count_kind(plan, action, i as nat),
            n <= i,
        decreases kinds@.len() - i,
    {
        assert(kinds@[i as int] == kind_at(plan, i as int));
        match kinds[i] {
            Some(k) => {
                if k == action {
                    n += 1;
                }
            },
            None => {},
        }
        i += 1;
    }
    n
}

fn add_misplaced_errors(
    instructions: &Vec<RebaseInstruction>,
    kinds: &Vec<Option<RebaseAction>>,
    errors: &mut Vec<String>,
)
    requires
        kinds@.len() == instructions@.len(),
        forall|i: int|
            0 <= i < kinds@.len() ==> kinds@[i] == #[trigger] kind_at(
                instructions.deep_view(),
                i,
            ),
    ensures
        final(errors).deep_view() == old(errors).deep_view() + misplaced_errors(
            instructions.deep_view(),
            instructions@.len(),
        ),
{
    let ghost plan = instructions.deep_view();
    let ghost head = errors.deep_view();
    assert(head + Seq::<Seq<char>>::empty() == head);
    let mut i: usize = 0;
    while i < instructions.len()
        invariant
            i <= instructions@.len(),
            kinds@.len() == instructions@.len(),
            plan == instructions.deep_view(),
            forall|j: int| 0 <= j < kinds@.len() ==> kinds@[j] == #[trigger] kind_at(plan, j),
            errors.deep_view() == head + misplaced_errors(plan, i as nat),
        decreases instructions@.len() - i,
    {
        assert(plan[i as int] == instructions@[i as int].deep_view());
        assert(kinds@[i as int] == kind_at(plan, i as int));
        if i >= 1 {
            assert(plan[i - 1] == instructions@[i - 1].deep_view());
            assert(kinds@[i - 1] == kind_at(plan, i - 1));
            let folds = match kinds[i] {
                Some(k) => k.is_meld(),
                None => false,
            };
            let blocked = match kinds[i - 1] {
                Some(k) => k.is_meld() || k == RebaseAction::Drop,
                None => false,
            };
            if folds && blocked {
                let m = build_misplaced(
                    instructions[i].hash.as_str(),
                    i + 1,
                    instructions[i].action.as_str(),
                    instructions[i - 1].action.as_str(),
                );
                push_text(errors, m);
                assert((head + misplaced_errors(plan, i as nat)).push(m@) == head
                    + misplaced_errors(plan, i as nat).push(m@));
            }
        }
        i += 1;
    }
}

/// Whether `hash` is one of the listed texts.
pub fn is_listed(list: &Vec<String>, hash: &str) -> (r: bool)
    ensures
        r == list.deep_view().contains(hash@),
{
    let mut i: usize = 0;
    while i < list.len()
        invariant
            i <= list@.len(),
            forall|j: int| 0 <= j < i ==> list.deep_view()[j] != hash@,
        decreases list@.len() - i,
    {
        assert(list.deep_view()[i as int] == list@[i as int]@);
        if same_text(list[i].as_str(), hash) {
            return true;
        }
        i += 1;
    }
    false
}

fn add_missing_commit_errors(
    instructions: &Vec<RebaseInstruction>,
    unresolved: &Vec<String>,
    errors: &mut Vec<String>,
)
    ensures
        final(errors).deep_view() == old(errors).deep_view() + missing_commit_errors(
            instructions.deep_view(),
            unresolved.deep_view(),
            instructions@.len(),
        ),
{
    let ghost plan = instructions.deep_view();
    let ghost head = errors.deep_view();
    assert(head + Seq::<Seq<char>>::empty() == head);
    let mut i: usize = 0;
    while i < instructions.len()
        invariant
            i <= instructions@.len(),
            plan == instructions.deep_view(),
            errors.deep_view() == head + missing_commit_errors(
                plan,
                unresolved.deep_view(),
                i as nat,
            ),
        decreases instructions@.len() - i,
    {
        assert(plan[i as int] == instructions@[i as int].deep_view());
        if is_listed(unresolved, instructions[i].hash.as_str()) {
            let m = build_missing_commit(instructions[i].hash.as_str(), i + 1);
            push_text(errors, m);
            assert((head + missing_commit_errors(plan, unresolved.deep_view(), i as nat)).push(m@)
                == head + missing_commit_errors(plan, unresolved.deep_view(), i as nat).push(m@));
        }
        i += 1;
    }
}

fn add_unknown_action_errors(
    instructions: &Vec<RebaseInstruction>,
    kinds: &Vec<Option<RebaseAction>>,
    errors: &mut Vec<String>,
)
    requires
        kinds@.len() == instructions@.len(),
        forall|i: int|
            0 <= i < kinds@.len() ==> kinds@[i] == #[trigger] kind_at(
                instructions.deep_view(),
                i,
            ),
    ensures
        final(errors).deep_view() == old(errors).deep_view() + unknown_action_errors(
            instructions.deep_view(),
            instructions@.len(),
        ),
{
    let ghost plan = instructions.deep_view();
    let ghost head = errors.deep_view();
    assert(head + Seq::<Seq<char>>::empty() == head);
    let mut i: usize = 0;
    while i < instructions.len()
        invariant
            i <= instructions@.len(),
            kinds@.len() == instructions@.len(),
            plan == instructions.deep_view(),
            forall|j: int| 0 <= j < kinds@.len() ==> kinds@[j] == #[trigger] kind_at(plan, j),
            errors.deep_view() == head + unknown_action_errors(plan, i as nat),
        decreases instructions@.len() - i,
    {
        assert(plan[i as int] == instructions@[i as int].deep_view());
        assert(kinds@[i as int] == kind_at(plan, i as int));
        if kinds[i].is_none() {
            let m = build_unknown_action(instructions[i].action.as_str(), i + 1);
            push_text(errors, m);
            assert((head + unknown_action_errors(plan, i as nat)).push(m@) == head
                + unknown_action_errors(plan, i as nat).push(m@));
        }
        i += 1;
    }
}

fn add_reword_warnings(
    instructions: &Vec<RebaseInstruction>,
    kinds: &Vec<Option<RebaseAction>>,
    warnings: &mut Vec<String>,
)
    requires
        kinds@.len() == instructions@.len(),
        forall|i: int|
            0 <= i < kinds@.len() ==> kinds@[i] == #[trigger] kind_at(
                instructions.deep_view(),
                i,
            ),
    ensures
        final(warnings).deep_view() == old(warnings).deep_view() + reword_warnings(
            instructions.deep_view(),
            instructions@.len(),
        ),
{
    let ghost plan = instructions.deep_view();
    let ghost head = warnings.deep_view();
    assert(head + Seq::<Seq<char>>::empty() == head);
    let mut i: usize = 0;
    while i < instructions.len()
        invariant
            i <= instructions@.len(),
            kinds@.len() == instructions@.len(),
            plan == instructions.deep_view(),
            forall|j: int| 0 <= j < kinds@.len() ==> kinds@[j] == #[trigger] kind_at(plan, j),
            warnings.deep_view() == head + reword_warnings(plan, i as nat),
        decreases instructions@.len() - i,
    {
        assert(plan[i as int] == instructions@[i as int].deep_view());
        assert(kinds@[i as int] == kind_at(plan, i as int));
        let rewords = match kinds[i] {
            Some(k) => k == RebaseAction::Reword,
            None => false,
        };
        if rewords && instructions[i].new_message.is_none() {
            let m = build_reword_warning(instructions[i].hash.as_str(), i + 1);
            push_text(warnings, m);
            assert((head + reword_warnings(plan, i as nat)).push(m@) == head + reword_warnings(
                plan,
                i as nat,
            ).push(m@));
        }
        i += 1;
    }
}

/// Whether every instruction is a drop.
pub fn drops_everything(
    instructions: &Vec<RebaseInstruction>,
    kinds: &Vec<Option<RebaseAction>>,
) -> (r: bool)
    requires
        kinds@.len() == instructions@.len(),
        forall|i: int|
            0 <= i < kinds@.len() ==> kinds@[i] == #[trigger] kind_at(
                instructions.deep_view(),
                i,
            ),
    ensures
        r == all_dropped(instructions.deep_view()),
{
    let ghost plan = instructions.deep_view();
    let mut i: usize = 0;
    while i < kinds.len()
        invariant
            i <= kinds@.len(),
            kinds@.len() == instructions@.len(),
            plan == instructions.deep_view(),
            forall|j: int| 0 <= j < kinds@.len() ==> kinds@[j] == #[trigger] kind_at(plan, j),
            forall|j: int| 0 <= j < i ==> kind_at(plan, j) == Some(RebaseAction::Drop),
        decreases kinds@.len() - i,
    {
        assert(kinds@[i as int] == kind_at(plan, i as int));
        let dropped = match kinds[i] {
            Some(k) => k == RebaseAction::Drop,
            None => false,
        };
        if !dropped {
            return false;
        }
        i += 1;
    }
    true
}

/// Holds a plan to the rules before anything is rewritten. `unresolved`
/// holds the hashes of the plan that the store could not resolve to a
/// commit. `store_opened` says whether the repository could be opened; the
/// warnings on how much the plan drops and folds are given only then.
pub fn validate_rebase_order(
    instructions: &Vec<RebaseInstruction>,
    unresolved: &Vec<String>,
    store_opened: bool,
) -> (r: ValidationResult)
    ensures
        r.errors.deep_view() == plan_errors(instructions.deep_view(), unresolved.deep_view()),
        r.warnings.deep_view() == plan_warnings(instructions.deep_view(), store_opened),
        r.is_valid == valid_plan(instructions.deep_view(), unresolved.deep_view()),
{
    let ghost plan = instructions.deep_view();
    let mut errors: Vec<String> = Vec::new();
    let mut warnings: Vec<String> = Vec::new();
    assert(errors.deep_view() =~= Seq::<Seq<char>>::empty());
    assert(warnings.deep_view() =~= Seq::<Seq<char>>::empty());
    if instructions.len() == 0 {
        push_text(&mut errors, String::from_str("No rebase instructions provided"));
        assert(errors.deep_view() =~= seq![empty_plan_message()]);
        return ValidationResult { is_valid: false, errors, warnings };
    }
    let kinds = parse_actions(instructions);
    assert(plan[0] == instructions@[0].deep_view());
    assert(kinds@[0] == kind_at(plan, 0));
    let first_is_pick = match kinds[0] {
        Some(k) => k == RebaseAction::Pick,
        None => false,
    };
    if !first_is_pick {
        push_text(&mut errors, build_first_not_pick(instructions[0].action.as_str()));
    }
    assert(errors.deep_view() =~= first_errors(plan));
    add_misplaced_errors(instructions, &kinds, &mut errors);
    if drops_everything(instructions, &kinds) {
        push_text(&mut errors, String::from_str(
            "Cannot drop all commits. At least one commit must be kept.",
        ));
    }
    assert(errors.deep_view() =~= first_errors(plan) + misplaced_errors(plan, plan.len())
        + all_dropped_errors(plan));
    add_missing_commit_errors(instructions, unresolved, &mut errors);
    add_unknown_action_errors(instructions, &kinds, &mut errors);

    add_reword_warnings(instructions, &kinds, &mut warnings);
    assert(warnings.deep_view() =~= reword_warnings(plan, plan.len()));
    if store_opened {
        let drops = count_actions(instructions, &kinds, RebaseAction::Drop);
        let squashes = count_actions(instructions, &kinds, RebaseAction::Squash);
        let fixups = count_actions(instructions, &kinds, RebaseAction::Fixup);
        if drops > 3 {
            push_text(&mut warnings, build_many_drops(drops));
        }
        if squashes > 5 || fixups > 5 - squashes {
            push_text(&mut warnings, String::from_str(
                "Squashing/fixuping many commits. Review carefully to ensure commit messages are meaningful.",
            ));
        }
    }
    assert(warnings.deep_view() =~= plan_warnings(plan, store_opened));
    let is_valid = errors.len() == 0;
    ValidationResult { is_valid, errors, warnings }
}

/// Where no misplaced squash or fixup is reported, none stands in the plan.
pub proof fn lemma_no_misplaced_errors(plan: Seq<InstructionModel>, n: nat)
    requires
        misplaced_errors(plan, n).len() == 0,
    ensures
        forall|i: int| 0 <= i < n ==> !misplaced(plan, i),
    decreases n,
{
    if n > 0 {
        lemma_no_misplaced_errors(plan, (n - 1) as nat);
    }
}

/// Where no unknown action word is reported, every word names an action.
pub proof fn lemma_no_unknown_errors(plan: Seq<InstructionModel>, n: nat)
    requires
        unknown_action_errors(plan, n).len() == 0,
    ensures
        forall|i: int| 0 <= i < n ==> kind_at(plan, i) is Some,
    decreases n,
{
    if n > 0 {
        lemma_no_unknown_errors(plan, (n - 1) as nat);
    }
}

/// Where no missing commit is reported, every commit resolves.
pub proof fn lemma_no_missing_commit_errors(
    plan: Seq<InstructionModel>,
    unresolved: Seq<Seq<char>>,
    n: nat,
)
    requires
        missing_commit_errors(plan, unresolved, n).len() == 0,
    ensures
        forall|i: int| 0 <= i < n ==> !unresolved_at(plan, unresolved, i),
    decreases n,
{
    if n > 0 {
        lemma_no_missing_commit_errors(plan, unresolved, (n - 1) as nat);
    }
}

/// A commit that does not resolve is reported.
pub proof fn lemma_missing_commit_reported(
    plan: Seq<InstructionModel>,
    unresolved: Seq<Seq<char>>,
    n: nat,
    at: int,
)
    requires
        0 <= at < n,
        unresolved_at(plan, unresolved, at),
    ensures
        missing_commit_errors(plan, unresolved, n).len() > 0,
    decreases n,
{
    if at < n - 1 {
        lemma_missing_commit_reported(plan, unresolved, (n - 1) as nat, at);
    }
}

/// A plan that names a commit the store cannot resolve is rejected.
pub proof fn lemma_unresolved_commit_rejected(
    plan: Seq<InstructionModel>,
    unresolved: Seq<Seq<char>>,
    at: int,
)
    requires
        0 <= at < plan.len(),
        unresolved_at(plan, unresolved, at),
    ensures
        !valid_plan(plan, unresolved),
{
    lemma_missing_commit_reported(plan, unresolved, plan.len(), at);
}

/// The shape of a plan that breaks no rule.
pub open spec fn well_shaped(plan: Seq<InstructionModel>, unresolved: Seq<Seq<char>>) -> bool {
    &&& plan.len() > 0
    &&& kind_at(plan, 0) == Some(RebaseAction::Pick)
    &&& forall|i: int| 0 <= i < plan.len() ==> (#[trigger] kind_at(plan, i)) is Some
    &&& forall|i: int| 0 <= i < plan.len() ==> !#[trigger] misplaced(plan, i)
    &&& forall|i: int| 0 <= i < plan.len() ==> !#[trigger] unresolved_at(plan, unresolved, i)
    &&& !all_dropped(plan)
}

/// A plan that breaks no rule is not empty, begins with a pick, names a
/// known action in every instruction, folds no commit into a dropped or
/// folded one, names only commits that resolve, and keeps at least one
/// commit.
pub proof fn lemma_valid_plan_shape(plan: Seq<InstructionModel>, unresolved: Seq<Seq<char>>)
    requires
        valid_plan(plan, unresolved),
    ensures
        well_shaped(plan, unresolved),
{
    let n = plan.len();
    if n > 0 {
        lemma_no_misplaced_errors(plan, n);
        lemma_no_unknown_errors(plan, n);
        lemma_no_missing_commit_errors(plan, unresolved, n);
    }
}

/// Where nothing among the first `n` instructions breaks a rule of its own,
/// nothing is reported of them.
pub proof fn lemma_nothing_to_report(
    plan: Seq<InstructionModel>,
    unresolved: Seq<Seq<char>>,
    n: nat,
)
    requires
        n <= plan.len(),
        forall|i: int| 0 <= i < n ==> (#[trigger] kind_at(plan, i)) is Some,
        forall|i: int| 0 <= i < n ==> !#[trigger] misplaced(plan, i),
        forall|i: int| 0 <= i < n ==> !#[trigger] unresolved_at(plan, unresolved, i),
    ensures
        misplaced_errors(plan, n).len() == 0,
        missing_commit_errors(plan, unresolved, n).len() == 0,
        unknown_action_errors(plan, n).len() == 0,
    decreases n,
{
    if n > 0 {
        lemma_nothing_to_report(plan, unresolved, (n - 1) as nat);
        assert(kind_at(plan, n - 1) is Some);
        assert(!misplaced(plan, n - 1));
        assert(!unresolved_at(plan, unresolved, n - 1));
    }
}

/// A plan breaks no rule exactly when it is not empty, begins with a pick,
/// names a known action in every instruction, folds no commit into a
/// dropped or folded one, names only commits that resolve, and keeps at
/// least one commit.
pub proof fn lemma_valid_means_well_shaped(plan: Seq<InstructionModel>, unresolved: Seq<Seq<char>>)
    ensures
        valid_plan(plan, unresolved) <==> well_shaped(plan, unresolved),
{
    if valid_plan(plan, unresolved) {
        lemma_valid_plan_shape(plan, unresolved);
    }
    if well_shaped(plan, unresolved) {
        lemma_nothing_to_report(plan, unresolved, plan.len());
    }
}

/// A plan that breaks no rule begins with a pick.
pub proof fn lemma_valid_plan_starts_with_pick(
    plan: Seq<InstructionModel>,
    unresolved: Seq<Seq<char>>,
)
    requires
        valid_plan(plan, unresolved),
    ensures
        plan.len() > 0,
        kind_at(plan, 0) == Some(RebaseAction::Pick),
{
    lemma_valid_plan_shape(plan, unresolved);
}

/// A plan whose first instruction is not a pick is rejected, and the first
/// error reported holds the word of the offending action.
pub proof fn lemma_first_not_pick_rejected(
    plan: Seq<InstructionModel>,
    unresolved: Seq<Seq<char>>,
)
    requires
        plan.len() > 0,
        kind_at(plan, 0) != Some(RebaseAction::Pick),
    ensures
        !valid_plan(plan, unresolved),
        plan_errors(plan, unresolved)[0] == first_not_pick_message(plan[0].action),
        mentions(plan_errors(plan, unresolved)[0], plan[0].action),
{
    let action = plan[0].action;
    let lead = "First commit must be 'pick'. Cannot "@;
    let message = first_not_pick_message(action);
    assert(message.subrange(lead.len() as int, (lead.len() + action.len()) as int) =~= action);
    assert(occurs_at(message, action, lead.len() as int));
    assert(plan_errors(plan, unresolved)[0] == first_errors(plan)[0]);
}

/// A plan in which every instruction is a drop is rejected.
pub proof fn lemma_all_dropped_rejected(plan: Seq<InstructionModel>, unresolved: Seq<Seq<char>>)
    requires
        all_dropped(plan),
    ensures
        !valid_plan(plan, unresolved),
{
    if plan.len() > 0 {
        assert(all_dropped_errors(plan).len() == 1);
    }
}

/// How many of the first `n` instructions begin a commit of the rewritten
/// history: the picks, rewords and edits.
pub open spec fn count_starters(plan: Seq<InstructionModel>, n: nat) -> nat {
    count_kind(plan, RebaseAction::Pick, n) + count_kind(plan, RebaseAction::Reword, n)
        + count_kind(plan, RebaseAction::Edit, n)
}

/// How many of the first `n` instructions fold into the commit before them.
pub open spec fn count_melds(plan: Seq<InstructionModel>, n: nat) -> nat {
    count_kind(plan, RebaseAction::Squash, n) + count_kind(plan, RebaseAction::Fixup, n)
}

/// Where every word names an action, each instruction is counted under
/// exactly one action: the commits begun are those neither dropped nor
/// folded.
pub proof fn lemma_counts_partition(plan: Seq<InstructionModel>, n: nat)
    requires
        n <= plan.len(),
        forall|i: int| 0 <= i < n ==> (#[trigger] kind_at(plan, i)) is Some,
    ensures
        count_starters(plan, n) == n - count_kind(plan, RebaseAction::Drop, n) - count_melds(
            plan,
            n,
        ),
    decreases n,
{
    if n > 0 {
        lemma_counts_partition(plan, (n - 1) as nat);
        assert(kind_at(plan, n - 1) is Some);
    }
}

/// How often each action occurs in a plan.
#[derive(Clone, Copy, Debug, PartialEq, Eq, Structural)]
pub struct ActionSummary {
    pub pick: usize,
    pub squash: usize,
    pub fixup: usize,
    pub drop: usize,
    pub reword: usize,
    pub edit: usize,
}

impl ActionSummary {
    /// The summary of a plan.
    pub open spec fn of_plan(plan: Seq<InstructionModel>) -> ActionSummary {
        ActionSummary {
            pick: count_kind(plan, RebaseAction::Pick, plan.len()) as usize,
            squash: count_kind(plan, RebaseAction::Squash, plan.len()) as usize,
            fixup: count_kind(plan, RebaseAction::Fixup, plan.len()) as usize,
            drop: count_kind(plan, RebaseAction::Drop, plan.len()) as usize,
            reword: count_kind(plan, RebaseAction::Reword, plan.len()) as usize,
            edit: count_kind(plan, RebaseAction::Edit, plan.len()) as usize,
        }
    }
}

/// The entry of an action in a summary: none where it does not occur.
pub open spec fn summary_entry(action: RebaseAction, count: usize) -> Seq<(RebaseAction, usize)> {
    if count > 0 {
        seq![(action, count)]
    } else {
        Seq::empty()
    }
}

impl ActionSummary {
    /// The actions that occur, each with how often, in the order pick,
    /// squash, fixup, drop, reword, edit. An action that does not occur has
    /// no entry.
    pub open spec fn occurring(self) -> Seq<(RebaseAction, usize)> {
        summary_entry(RebaseAction::Pick, self.pick) + summary_entry(
            RebaseAction::Squash,
            self.squash,
        ) + summary_entry(RebaseAction::Fixup, self.fixup) + summary_entry(
            RebaseAction::Drop,
            self.drop,
        ) + summary_entry(RebaseAction::Reword, self.reword) + summary_entry(
            RebaseAction::Edit,
            self.edit,
        )
    }

    /// The actions that occur, each with how often.
    pub fn entries(&self) -> (r: Vec<(RebaseAction, usize)>)
        ensures
            r@ == self.occurring(),
    {
        let mut r: Vec<(RebaseAction, usize)> = Vec::new();
        add_entry(&mut r, RebaseAction::Pick, self.pick);
        add_entry(&mut r, RebaseAction::Squash, self.squash);
        add_entry(&mut r, RebaseAction::Fixup, self.fixup);
        add_entry(&mut r, RebaseAction::Drop, self.drop);
        add_entry(&mut r, RebaseAction::Reword, self.reword);
        add_entry(&mut r, RebaseAction::Edit, self.edit);
        assert(Seq::<(RebaseAction, usize)>::empty() + summary_entry(
            RebaseAction::Pick,
            self.pick,
        ) =~= summary_entry(RebaseAction::Pick, self.pick));
        r
    }
}

fn add_entry(list: &mut Vec<(RebaseAction, usize)>, action: RebaseAction, count: usize)
    ensures
        final(list)@ == old(list)@ + summary_entry(action, count),
{
    if count > 0 {
        list.push((action, count));
        assert(list@ =~= old(list)@ + summary_entry(action, count));
    } else {
        assert(list@ =~= old(list)@ + summary_entry(action, count));
    }
}

/// The preview of a plan that breaks no rule.
#[derive(Clone, Debug)]
pub struct RebasePlan {
    pub total_commits: usize,
    pub actions_summary: ActionSummary,
    pub warnings: Vec<String>,
    pub can_proceed: bool,
}

pub open spec fn invalid_plan_message(errors: Seq<Seq<char>>) -> Seq<char> {
    "Invalid rebase instructions: "@ + joined(errors, ", "@)
}

pub open spec fn change_summary(total: nat, resulting: nat, dropped: nat, melded: nat) -> Seq<
    char,
> {
    "This rebase will change "@ + decimal(total) + " commits into "@ + decimal(resulting)
        + " commits ("@ + decimal(dropped) + " dropped, "@ + decimal(melded)
        + " squashed/fixuped)"@
}

pub open spec fn history_warning() -> Seq<char> {
    "  Interactive rebase rewrites Git history. Only rebase commits that haven't been pushed."@
}

/// The number of commits that a plan leaves: every instruction but the
/// dropped and the folded ones.
pub open spec fn resulting_commits(plan: Seq<InstructionModel>) -> int {
    plan.len() - count_kind(plan, RebaseAction::Drop, plan.len()) - count_melds(plan, plan.len())
}

/// What the preview of a valid plan warns about: the warnings of
/// validation, then how the number of commits changes where any is dropped
/// or folded, then that history is rewritten.
pub open spec fn preview_warnings(plan: Seq<InstructionModel>, store_opened: bool) -> Seq<
    Seq<char>,
> {
    let dropped = count_kind(plan, RebaseAction::Drop, plan.len());
    let melded = count_melds(plan, plan.len());
    let base = plan_warnings(plan, store_opened);
    let counted = if dropped > 0 || melded > 0 {
        base.push(change_summary(plan.len(), resulting_commits(plan) as nat, dropped, melded))
    } else {
        base
    };
    counted.push(history_warning())
}

fn build_change_summary(total: usize, resulting: usize, dropped: usize, melded: usize) -> (m:
    String)
    ensures
        m@ == change_summary(total as nat, resulting as nat, dropped as nat, melded as nat),
{
    let mut m = String::from_str("This rebase will change ");
    append_decimal(&mut m, total);
    m.append(" commits into ");
    append_decimal(&mut m, resulting);
    m.append(" commits (");
    append_decimal(&mut m, dropped);
    m.append(" dropped, ");
    append_decimal(&mut m, melded);
    m.append(" squashed/fixuped)");
    m
}

/// For a plan that breaks no rule, the number of commits it leaves is the
/// number of its picks, rewords and edits.
pub proof fn lemma_resulting_commits(plan: Seq<InstructionModel>, unresolved: Seq<Seq<char>>)
    requires
        valid_plan(plan, unresolved),
    ensures
        resulting_commits(plan) == count_starters(plan, plan.len()),
        resulting_commits(plan) >= 1,
{
    lemma_valid_plan_shape(plan, unresolved);
    lemma_counts_partition(plan, plan.len());
    lemma_count_positive(plan, RebaseAction::Pick, plan.len(), 0);
}

/// An action that occurs among the first `n` instructions is counted.
pub proof fn lemma_count_positive(
    plan: Seq<InstructionModel>,
    action: RebaseAction,
    n: nat,
    at: int,
)
    requires
        0 <= at < n,
        kind_at(plan, at) == Some(action),
    ensures
        count_kind(plan, action, n) >= 1,
    decreases n,
{
    if at < n - 1 {
        lemma_count_positive(plan, action, (n - 1) as nat, at);
    }
}

/// Previews a plan without running it: refuses a plan that breaks a rule,
/// with every broken rule in one message, and otherwise says how often each
/// action occurs and what the caller should be warned about.
pub fn prepare_interactive_rebase(
    instructions: &Vec<RebaseInstruction>,
    unresolved: &Vec<String>,
    store_opened: bool,
) -> (r: Result<RebasePlan, String>)
    ensures
        match r {
            Ok(preview) => {
                &&& valid_plan(instructions.deep_view(), unresolved.deep_view())
                &&& preview.total_commits == instructions@.len()
                &&& preview.actions_summary == ActionSummary::of_plan(instructions.deep_view())
                &&& preview.warnings.deep_view() == preview_warnings(
                    instructions.deep_view(),
                    store_opened,
                )
                &&& preview.can_proceed
            },
            Err(message) => {
                &&& !valid_plan(instructions.deep_view(), unresolved.deep_view())
                &&& message@ == invalid_plan_message(
                    plan_errors(instructions.deep_view(), unresolved.deep_view()),
                )
            },
        },
{
    let ghost plan = instructions.deep_view();
    let validation = validate_rebase_order(instructions, unresolved, store_opened);
    if !validation.is_valid {
        let mut message = String::from_str("Invalid rebase instructions: ");
        let all = join(&validation.errors, ", ");
        message.append(all.as_str());
        return Err(message);
    }
    proof {
        lemma_valid_plan_shape(plan, unresolved.deep_view());
        lemma_counts_partition(plan, plan.len());
    }
    let kinds = parse_actions(instructions);
    let pick = count_actions(instructions, &kinds, RebaseAction::Pick);
    let squash = count_actions(instructions, &kinds, RebaseAction::Squash);
    let fixup = count_actions(instructions, &kinds, RebaseAction::Fixup);
    let drop = count_actions(instructions, &kinds, RebaseAction::Drop);
    let reword = count_actions(instructions, &kinds, RebaseAction::Reword);
    let edit = count_actions(instructions, &kinds, RebaseAction::Edit);
    let total: usize = instructions.len();
    let melded: usize = squash + fixup;
    let resulting: usize = total - drop - melded;
    let mut warnings = validation.warnings;
    if drop > 0 || melded > 0 {
        push_text(&mut warnings, build_change_summary(total, resulting, drop, melded));
    }
    push_text(&mut warnings, String::from_str(
        "  Interactive rebase rewrites Git history. Only rebase commits that haven't been pushed.",
    ));
    Ok(
        RebasePlan {
            total_commits: total,
            actions_summary: ActionSummary { pick, squash, fixup, drop, reword, edit },
            warnings,
            can_proceed: true,
        },
    )
}

} // verus!
