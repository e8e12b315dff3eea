//! What became of the commands: the outcome of each, and the verdict on the
//! run.

use crate::dispatch::{PlannedRule, RulePlan};
use crate::text::copy_texts;
use vstd::prelude::*;
use vstd::seq_lib::lemma_multiset_commutative;

verus! {

/// How a command ended.
#[derive(Debug, Clone, Copy, PartialEq, Eq)]
pub enum Outcome {
    /// The process exited with status zero.
    Success,
    /// The process exited with another status, held here, or ended without
    /// one.
    Failed(Option<i32>),
    /// No process could be started.
    SpawnFailed,
}

impl Outcome {
    /// The outcome of a process that ended with the exit status `code`, `None`
    /// where it ended without one.
    pub fn from_exit_code(code: Option<i32>) -> (outcome: Outcome)
        ensures
            outcome == (if code == Some(0i32) {
                Outcome::Success
            } else {
                Outcome::Failed(code)
            }),
    {
        match code {
            Some(0) => Outcome::Success,
            _ => Outcome::Failed(code),
        }
    }

    /// Whether the command exited with status zero.
    pub fn is_success(&self) -> (b: bool)
        ensures
            b == (*self is Success),
    {
        match self {
            Outcome::Success => true,
            _ => false,
        }
    }
}

/// The outcomes on record for the commands of `plan`, where `outcomes` were
/// observed: a command without a command line was not started, whatever was
/// observed of it.
pub open spec fn recorded(plan: PlannedRule, outcomes: Seq<Outcome>) -> Seq<Outcome> {
    Seq::new(
        outcomes.len(),
        |j: int|
            if plan.commands[j].line is None {
                Outcome::SpawnFailed
            } else {
                outcomes[j]
            },
    )
}

/// The work of one rule with the outcome of each of its commands.
#[derive(Debug, PartialEq, Eq)]
pub struct RuleResult {
    plan: RulePlan,
    outcomes: Vec<Outcome>,
}

impl RuleResult {
    /// Every command has its outcome, and a command without a command line
    /// has not been started.
    #[verifier::type_invariant]
    pub closed spec fn well_formed(self) -> bool {
        &&& self.outcomes.len() == self.plan.commands.len()
        &&& forall|j: int|
            0 <= j < self.outcomes.len() && (#[trigger] self.plan.commands[j]).invocation is None
                ==> self.outcomes[j] == Outcome::SpawnFailed
    }

    /// The work of the rule.
    pub closed spec fn plan_view(self) -> PlannedRule {
        self.plan@
    }

    /// The outcomes of the commands, in the order of the commands.
    pub closed spec fn outcomes_view(self) -> Seq<Outcome> {
        self.outcomes@
    }

    /// What well-formedness means for the views.
    pub proof fn lemma_well_formed(self)
        requires
            self.well_formed(),
        ensures
            self.outcomes_view().len() == self.plan_view().commands.len(),
            recorded(self.plan_view(), self.outcomes_view()) == self.outcomes_view(),
    {
        assert forall|j: int| 0 <= j < self.outcomes@.len() implies recorded(
            self.plan@,
            self.outcomes@,
        )[j] == self.outcomes@[j] by {
            assert(self.plan@.commands[j] == self.plan.commands[j]@);
        }
    }

    /// Puts the observed outcomes on record for the commands of `plan`. There
    /// has to be one outcome for each command.
    pub fn new(plan: RulePlan, outcomes: Vec<Outcome>) -> (r: Option<RuleResult>)
        ensures
            r is Some <==> outcomes.len() == plan.commands.len(),
            r matches Some(result) ==> result.well_formed() && result.plan_view() == plan@
                && result.outcomes_view() == recorded(plan@, outcomes@),
    {
        if outcomes.len() != plan.commands.len() {
            return None;
        }
        let mut outcomes = outcomes;
        let ghost observed = outcomes@;
        let mut j: usize = 0;
        while j < outcomes.len()
            invariant
                j <= outcomes.len(),
                outcomes.len() == observed.len(),
                outcomes.len() == plan.commands.len(),
                forall|k: int|
                    0 <= k < j ==> outcomes[k] == #[trigger] recorded(plan@, observed)[k],
                forall|k: int| j <= k < outcomes.len() ==> outcomes[k] == observed[k],
            decreases outcomes.len() - j,
        {
            if plan.commands[j].invocation.is_none() {
                outcomes.set(j, Outcome::SpawnFailed);
            }
            j += 1;
        }
        assert(outcomes@ =~= recorded(plan@, observed));
        assert forall|k: int|
            0 <= k < outcomes.len() && (#[trigger] plan.commands[k]).invocation is None
                implies outcomes[k] == Outcome::SpawnFailed by {
            assert(plan@.commands[k] == plan.commands[k]@);
        }
        Some(RuleResult { plan, outcomes })
    }

    /// The work of the rule.
    pub fn plan(&self) -> (plan: &RulePlan)
        ensures
            plan@ == self.plan_view(),
    {
        &self.plan
    }

    /// The outcomes of the commands.
    pub fn outcomes(&self) -> (outcomes: &Vec<Outcome>)
        ensures
            outcomes@ == self.outcomes_view(),
            outcomes@.len() == self.plan_view().commands.len(),
    {
        proof {
            use_type_invariant(self);
        }
        &self.outcomes
    }

    /// The number of files that the pattern of the rule matched.
    pub fn matched_files(&self) -> (n: usize)
        ensures
            n == self.plan_view().files.len(),
    {
        self.plan.files.len()
    }
}

/// What became of one command: the pattern of its rule, the command, the
/// files that it was handed, and how it ended.
pub struct CommandResult {
    pub pattern: Seq<char>,
    pub command: Seq<char>,
    pub files: Seq<Seq<char>>,
    pub outcome: Outcome,
}

/// A command that did not succeed.
#[derive(Debug, Clone, PartialEq, Eq)]
pub struct Failure {
    /// The pattern of the rule.
    pub pattern: String,
    /// The command as the rule declares it.
    pub command: String,
    /// The files that the command was handed.
    pub files: Vec<String>,
    /// How the command ended.
    pub outcome: Outcome,
}

impl View for Failure {
    type V = CommandResult;

    open spec fn view(&self) -> CommandResult {
        CommandResult {
            pattern: self.pattern@,
            command: self.command@,
            files: self.files.deep_view(),
            outcome: self.outcome,
        }
    }
}

/// The failures as the contracts read them.
pub open spec fn failure_views(list: Seq<Failure>) -> Seq<CommandResult> {
    Seq::new(list.len(), |i: int| list[i]@)
}

/// What became of the commands of one rule, in their order.
pub open spec fn rule_results(plan: PlannedRule, outcomes: Seq<Outcome>) -> Seq<CommandResult> {
    Seq::new(
        outcomes.len(),
        |j: int|
            CommandResult {
                pattern: plan.pattern,
                command: plan.commands[j].command,
                files: plan.files,
                outcome: outcomes[j],
            },
    )
}

/// What became of every command: rule after rule, and within a rule command
/// after command.
pub open spec fn results(rules: Seq<RuleResult>) -> Seq<CommandResult>
    decreases rules.len(),
{
    if rules.len() == 0 {
        Seq::empty()
    } else {
        results(rules.drop_last()) + rule_results(
            rules.last().plan_view(),
            rules.last().outcomes_view(),
        )
    }
}

/// The test for a command that did not exit with status zero.
pub open spec fn is_failure() -> spec_fn(CommandResult) -> bool {
    |result: CommandResult| !(result.outcome is Success)
}

/// The commands that did not succeed, in the order of the results.
pub open spec fn failures(rules: Seq<RuleResult>) -> Seq<CommandResult> {
    results(rules).filter(is_failure())
}

/// Whether every command of every rule exited with status zero.
pub open spec fn all_succeeded(rules: Seq<RuleResult>) -> bool {
    forall|i: int, j: int|
        0 <= i < rules.len() && 0 <= j < rules[i].outcomes_view().len() ==> (
        #[trigger] rules[i].outcomes_view()[j]) is Success
}

/// The results of rules put one after the other are the results of the
/// first ones followed by those of the others.
pub proof fn lemma_results_concat(first: Seq<RuleResult>, second: Seq<RuleResult>)
    ensures
        results(first + second) == results(first) + results(second),
    decreases second.len(),
{
    if second.len() == 0 {
        assert(first + second =~= first);
    } else {
        lemma_results_concat(first, second.drop_last());
        assert((first + second).drop_last() =~= first + second.drop_last());
    }
}

/// The results hold one entry for each outcome of each rule.
pub proof fn lemma_results_cover_outcomes(rules: Seq<RuleResult>, i: int, j: int)
    requires
        0 <= i < rules.len(),
        0 <= j < rules[i].outcomes_view().len(),
    ensures
        exists|k: int|
            0 <= k < results(rules).len() && #[trigger] results(rules)[k] == rule_results(
                rules[i].plan_view(),
                rules[i].outcomes_view(),
            )[j],
    decreases rules.len(),
{
    let front = results(rules.drop_last());
    let here = rule_results(rules.last().plan_view(), rules.last().outcomes_view());
    if i == rules.len() - 1 {
        assert(results(rules)[front.len() + j] == here[j]);
    } else {
        lemma_results_cover_outcomes(rules.drop_last(), i, j);
        let k = choose|k: int|
            0 <= k < front.len() && #[trigger] front[k] == rule_results(
                rules[i].plan_view(),
                rules[i].outcomes_view(),
            )[j];
        assert(results(rules)[k] == front[k]);
    }
}

/// Each entry of the results is the outcome of a command of a rule.
pub proof fn lemma_results_come_from_outcomes(rules: Seq<RuleResult>, k: int)
    requires
        0 <= k < results(rules).len(),
    ensures
        exists|i: int, j: int|
            0 <= i < rules.len() && 0 <= j < rules[i].outcomes_view().len() && results(rules)[k]
                == #[trigger] rule_results(rules[i].plan_view(), rules[i].outcomes_view())[j],
    decreases rules.len(),
{
    let front = results(rules.drop_last());
    let here = rule_results(rules.last().plan_view(), rules.last().outcomes_view());
    if k < front.len() {
        lemma_results_come_from_outcomes(rules.drop_last(), k);
        let (i, j) = choose|i: int, j: int|
            0 <= i < rules.drop_last().len() && 0 <= j < rules.drop_last()[i].outcomes_view().len()
                && front[k] == #[trigger] rule_results(
                rules.drop_last()[i].plan_view(),
                rules.drop_last()[i].outcomes_view(),
            )[j];
    } else {
        let i = rules.len() - 1;
        let j = k - front.len();
        assert(results(rules)[k] == rule_results(
            rules[i].plan_view(),
            rules[i].outcomes_view(),
        )[j]);
    }
}

/// A run succeeded exactly when no command is among the failures.
pub proof fn lemma_success_iff_no_failures(rules: Seq<RuleResult>)
    ensures
        all_succeeded(rules) <==> failures(rules).len() == 0,
{
    let all = results(rules);
    let test = is_failure();
    if all_succeeded(rules) && failures(rules).len() > 0 {
        let bad = all.filter(test)[0];
        all.lemma_filter_pred(test, 0);
        all.lemma_filter_contains_rev(test, bad);
        let k = all.lemma_contains_to_index(bad);
        lemma_results_come_from_outcomes(rules, k);
        let (i, j) = choose|i: int, j: int|
            0 <= i < rules.len() && 0 <= j < rules[i].outcomes_view().len() && all[k]
                == #[trigger] rule_results(rules[i].plan_view(), rules[i].outcomes_view())[j];
    }
    if failures(rules).len() == 0 {
        assert forall|i: int, j: int|
            0 <= i < rules.len() && 0 <= j < rules[i].outcomes_view().len() implies (
        #[trigger] rules[i].outcomes_view()[j]) is Success by {
            lemma_results_cover_outcomes(rules, i, j);
            let k = choose|k: int|
                0 <= k < all.len() && #[trigger] all[k] == rule_results(
                    rules[i].plan_view(),
                    rules[i].outcomes_view(),
                )[j];
            if !(rules[i].outcomes_view()[j] is Success) {
                all.lemma_filter_contains(test, k);
            }
        }
    }
}

/// The order in which the rules are gone through changes the order of the
/// results and nothing else: the same rules, in any order, give the same
/// results, each as often.
pub proof fn lemma_results_ignore_order(first: Seq<RuleResult>, second: Seq<RuleResult>)
    requires
        first.to_multiset() == second.to_multiset(),
    ensures
        results(first).to_multiset() == results(second).to_multiset(),
    decreases first.len(),
{
    first.to_multiset_ensures();
    second.to_multiset_ensures();
    if first.len() > 0 {
        let last = first.last();
        let here = rule_results(last.plan_view(), last.outcomes_view());
        assert(first.contains(last)) by {
            assert(first[first.len() - 1] == last);
        }
        assert(second.to_multiset().count(last) > 0);
        let k = second.lemma_contains_to_index(last);
        let before = second.take(k);
        let after = second.skip(k + 1);
        assert(first.remove(first.len() - 1) =~= first.drop_last());
        assert(second.remove(k) =~= before + after);
        lemma_results_ignore_order(first.drop_last(), before + after);
        assert(second =~= (before + seq![last]) + after);
        lemma_results_concat(before, after);
        lemma_results_concat(before, seq![last]);
        lemma_results_concat(before + seq![last], after);
        assert(results(seq![last]) =~= here) by {
            assert(seq![last].drop_last() =~= Seq::<RuleResult>::empty());
            assert(results(Seq::<RuleResult>::empty()) =~= Seq::<CommandResult>::empty());
        }
        lemma_multiset_commutative(results(first.drop_last()), here);
        lemma_multiset_commutative(results(before), results(after));
        lemma_multiset_commutative(results(before), here);
        lemma_multiset_commutative(results(before) + here, results(after));
    }
}

/// The report of a run: the result of every rule.
#[derive(Debug, PartialEq, Eq)]
pub struct ExecutionReport {
    pub rules: Vec<RuleResult>,
}

impl ExecutionReport {
    /// Whether the run succeeded: every command of every rule exited with
    /// status zero.
    pub fn success(&self) -> (b: bool)
        ensures
            b == all_succeeded(self.rules@),
    {
        let mut i: usize = 0;
        while i < self.rules.len()
            invariant
                i <= self.rules.len(),
                forall|a: int, b: int|
                    0 <= a < i && 0 <= b < self.rules[a].outcomes_view().len() ==> (
                    #[trigger] self.rules[a].outcomes_view()[b]) is Success,
            decreases self.rules.len() - i,
        {
            let outcomes = self.rules[i].outcomes();
            let mut j: usize = 0;
            while j < outcomes.len()
                invariant
                    j <= outcomes.len(),
                    i < self.rules.len(),
                    outcomes@ == self.rules[i as int].outcomes_view(),
                    forall|b: int| 0 <= b < j ==> (#[trigger] outcomes[b]) is Success,
                decreases outcomes.len() - j,
            {
                if !outcomes[j].is_success() {
                    return false;
                }
                j += 1;
            }
            i += 1;
        }
        true
    }

    /// The exit status that the run asks for: zero where it succeeded, one
    /// where a command failed.
    pub fn exit_code(&self) -> (code: i32)
        ensures
            code == (if all_succeeded(self.rules@) {
                0i32
            } else {
                1i32
            }),
    {
        if self.success() {
            0
        } else {
            1
        }
    }

    /// The commands that did not succeed, each with its rule and its files.
    pub fn failures(&self) -> (list: Vec<Failure>)
        ensures
            failure_views(list@) == failures(self.rules@),
    {
        let ghost test = is_failure();
        let mut out: Vec<Failure> = Vec::new();
        let mut i: usize = 0;
        proof {
            reveal(Seq::filter);
        }
        while i < self.rules.len()
            invariant
                i <= self.rules.len(),
                test == is_failure(),
                failure_views(out@) == results(self.rules@.take(i as int)).filter(test),
            decreases self.rules.len() - i,
        {
            let rule = &self.rules[i];
            let plan = rule.plan();
            let outcomes = rule.outcomes();
            let ghost done = results(self.rules@.take(i as int));
            let ghost here = rule_results(rule.plan_view(), rule.outcomes_view());
            let mut j: usize = 0;
            proof {
                reveal(Seq::filter);
            }
            while j < outcomes.len()
                invariant
                    j <= outcomes.len(),
                    test == is_failure(),
                    plan@ == rule.plan_view(),
                    outcomes@ == rule.outcomes_view(),
                    outcomes.len() == plan.commands.len(),
                    here == rule_results(rule.plan_view(), rule.outcomes_view()),
                    failure_views(out@) == done.filter(test) + here.take(j as int).filter(test),
                decreases outcomes.len() - j,
            {
                proof {
                    assert(here.take(j + 1) =~= here.take(j as int).push(here[j as int]));
                    here.take(j as int).lemma_filter_push(here[j as int], test);
                }
                if !outcomes[j].is_success() {
                    let failure = Failure {
                        pattern: plan.pattern.clone(),
                        command: plan.commands[j].command.clone(),
                        files: copy_texts(&plan.files),
                        outcome: outcomes[j],
                    };
                    out.push(failure);
                    assert(done.filter(test) + here.take(j as int).filter(test).push(
                        here[j as int],
                    ) =~= (done.filter(test) + here.take(j as int).filter(test)).push(
                        here[j as int],
                    ));
                }
                j += 1;
            }
            proof {
                assert(here.take(j as int) =~= here);
                assert(self.rules@.take(i + 1).drop_last() =~= self.rules@.take(i as int));
                Seq::filter_distributes_over_add(done, here, test);
            }
            i += 1;
        }
        assert(self.rules@.take(i as int) =~= self.rules@);
        out
    }
}

} // verus!
