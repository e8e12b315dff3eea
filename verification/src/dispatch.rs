//! The dispatch: which command lines run for which rule.

use crate::cli::CliOptions;
use crate::command::{command_line, invocation, CommandLine, Invocation};
use crate::config::{Rule, RslintStagedConfig, RslintStagedConfigItem};
use crate::matcher::{pattern_accepts, PathMatcher};
use crate::path::{relative_all, relative_to, relativize};
use crate::repo::{staged, Repo};
use vstd::prelude::*;

verus! {

/// One command of a rule and its command line, as the contracts read them.
pub struct PlannedCommand {
    pub command: Seq<char>,
    pub line: Option<CommandLine>,
}

/// One command of a rule with the command line to start; `None` for a command
/// without a word, which names no executable.
#[derive(Debug, Clone, PartialEq, Eq)]
pub struct CommandPlan {
    pub command: String,
    pub invocation: Option<Invocation>,
}

impl View for CommandPlan {
    type V = PlannedCommand;

    open spec fn view(&self) -> PlannedCommand {
        PlannedCommand {
            command: self.command@,
            line: match self.invocation {
                Some(line) => Some(line@),
                None => None,
            },
        }
    }
}

/// The work of one rule, as the contracts read it.
pub struct PlannedRule {
    pub pattern: Seq<char>,
    pub files: Seq<Seq<char>>,
    pub commands: Seq<PlannedCommand>,
}

/// The work of one rule: the files that its pattern matched, as they are
/// handed to the commands, and the commands in the order of declaration.
#[derive(Debug, Clone, PartialEq, Eq)]
pub struct RulePlan {
    pub pattern: String,
    pub files: Vec<String>,
    pub commands: Vec<CommandPlan>,
}

impl View for RulePlan {
    type V = PlannedRule;

    open spec fn view(&self) -> PlannedRule {
        PlannedRule {
            pattern: self.pattern@,
            files: self.files.deep_view(),
            commands: Seq::new(self.commands.len() as nat, |i: int| self.commands[i]@),
        }
    }
}

/// The plans as the contracts read them.
pub open spec fn plans_view(plans: Seq<RulePlan>) -> Seq<PlannedRule> {
    Seq::new(plans.len(), |i: int| plans[i]@)
}

/// The test that the glob `pattern` makes of a path.
pub open spec fn accepted_by(pattern: Seq<char>) -> spec_fn(Seq<char>) -> bool {
    |path: Seq<char>| pattern_accepts(pattern, path)
}

/// The paths of `staged` that `pattern` matches, in their order.
pub open spec fn matched(pattern: Seq<char>, staged: Seq<Seq<char>>) -> Seq<Seq<char>> {
    staged.filter(accepted_by(pattern))
}

/// The files as the commands get them: as seen from `cwd` where `relative` is
/// set, and as they are otherwise.
pub open spec fn rendered(files: Seq<Seq<char>>, relative: bool, cwd: Seq<char>) -> Seq<Seq<char>> {
    if relative {
        relative_all(files, cwd)
    } else {
        files
    }
}

/// The commands of a rule on `files`, each to be started in `cwd`.
pub open spec fn planned_commands(
    commands: Seq<Seq<char>>,
    files: Seq<Seq<char>>,
    cwd: Seq<char>,
) -> Seq<PlannedCommand> {
    Seq::new(
        commands.len(),
        |i: int|
            PlannedCommand { command: commands[i], line: command_line(commands[i], files, cwd) },
    )
}

/// The work of `rule` on the staged files: the files are filtered as they are
/// staged and rendered afterwards, and every command gets all of them, also
/// where there are none, and is started in `cwd`.
pub open spec fn planned_rule(
    rule: Rule,
    staged: Seq<Seq<char>>,
    relative: bool,
    cwd: Seq<char>,
) -> PlannedRule {
    let files = rendered(matched(rule.pattern, staged), relative, cwd);
    PlannedRule {
        pattern: rule.pattern,
        files,
        commands: planned_commands(rule.commands, files, cwd),
    }
}

/// The work of every rule, in the order of the rules.
pub open spec fn planned(
    rules: Seq<Rule>,
    staged: Seq<Seq<char>>,
    relative: bool,
    cwd: Seq<char>,
) -> Seq<PlannedRule> {
    Seq::new(rules.len(), |i: int| planned_rule(rules[i], staged, relative, cwd))
}

/// The matched files are the staged files that the pattern accepts: none is
/// left out, and none is there that is not staged or not accepted.
pub proof fn lemma_matched_is_exact(pattern: Seq<char>, staged: Seq<Seq<char>>)
    ensures
        forall|path: Seq<char>|
            matched(pattern, staged).contains(path) <==> staged.contains(path) && pattern_accepts(
                pattern,
                path,
            ),
        matched(pattern, staged).to_set() == staged.to_set().filter(accepted_by(pattern)),
{
    let test = accepted_by(pattern);
    let kept = matched(pattern, staged);
    assert forall|path: Seq<char>| kept.contains(path) <==> staged.contains(path) && test(
        path,
    ) by {
        if kept.contains(path) {
            let k = kept.lemma_contains_to_index(path);
            staged.lemma_filter_pred(test, k);
            staged.lemma_filter_contains_rev(test, path);
        }
        if staged.contains(path) && test(path) {
            let i = staged.lemma_contains_to_index(path);
            staged.lemma_filter_contains(test, i);
        }
    }
}

/// The plan does not read the concurrency mode: runs that differ in nothing
/// that the plan reads start the same commands on the same files.
pub proof fn lemma_plan_ignores_concurrency(first: RslintStaged, second: RslintStaged)
    requires
        first.config@ == second.config@,
        first.staged() == second.staged(),
        first.cli_options.relative == second.cli_options.relative,
        first.cli_options.cwd@ == second.cli_options.cwd@,
    ensures
        planned(first.config@, first.staged(), first.cli_options.relative, first.cli_options.cwd@)
            == planned(
            second.config@,
            second.staged(),
            second.cli_options.relative,
            second.cli_options.cwd@,
        ),
{
}

/// The staged files that `matcher` accepts, in their order.
pub fn filter_staged(matcher: &PathMatcher, staged: &Vec<String>) -> (files: Vec<String>)
    ensures
        files.deep_view() == matched(matcher.pattern_text(), staged.deep_view()),
{
    let ghost all = staged.deep_view();
    let ghost test = accepted_by(matcher.pattern_text());
    let mut out: Vec<String> = Vec::new();
    let mut i: usize = 0;
    assert(Seq::<Seq<char>>::empty().filter(test) =~= Seq::<Seq<char>>::empty()) by {
        reveal(Seq::filter);
    }
    while i < staged.len()
        invariant
            i <= staged.len(),
            all == staged.deep_view(),
            test == accepted_by(matcher.pattern_text()),
            out.deep_view() == all.take(i as int).filter(test),
        decreases staged.len() - i,
    {
        let path = &staged[i];
        proof {
            assert(all.take(i + 1) =~= all.take(i as int).push(path@));
            all.take(i as int).lemma_filter_push(path@, test);
        }
        if matcher.matches(path.as_str()) {
            out.push(path.clone());
        }
        i += 1;
    }
    assert(all.take(i as int) =~= all);
    out
}

/// Renders the matched files as the commands get them.
pub fn render_files(files: Vec<String>, relative: bool, cwd: &str) -> (r: Vec<String>)
    ensures
        r.deep_view() == rendered(files.deep_view(), relative, cwd@),
{
    if !relative {
        return files;
    }
    let mut out: Vec<String> = Vec::new();
    let mut i: usize = 0;
    while i < files.len()
        invariant
            i <= files.len(),
            out.len() == i,
            forall|k: int| 0 <= k < i ==> out[k]@ == relative_to(files[k]@, cwd@),
        decreases files.len() - i,
    {
        out.push(relativize(files[i].as_str(), cwd));
        i += 1;
    }
    out
}

impl RslintStagedConfigItem {
    /// The work of this rule on the staged files.
    pub fn dispatch(&self, staged: &Vec<String>, options: &CliOptions) -> (plan: RulePlan)
        ensures
            plan@ == planned_rule(self@, staged.deep_view(), options.relative, options.cwd@),
    {
        let matched_files = filter_staged(&self.path_matcher, staged);
        let files = render_files(matched_files, options.relative, options.cwd.as_str());
        let mut commands: Vec<CommandPlan> = Vec::new();
        let mut i: usize = 0;
        while i < self.commands.len()
            invariant
                i <= self.commands.len(),
                commands.len() == i,
                forall|k: int|
                    0 <= k < i ==> (#[trigger] commands[k])@ == planned_commands(
                        self.commands.deep_view(),
                        files.deep_view(),
                        options.cwd@,
                    )[k],
            decreases self.commands.len() - i,
        {
            let command = &self.commands[i];
            let line = invocation(command.as_str(), &files, options.cwd.as_str());
            commands.push(CommandPlan { command: command.clone(), invocation: line });
            i += 1;
        }
        let plan = RulePlan { pattern: self.path_matcher.pattern().clone(), files, commands };
        assert(plan@.commands =~= planned_commands(
            self.commands.deep_view(),
            files.deep_view(),
            options.cwd@,
        ));
        plan
    }
}

/// One run: the rule set, the options and the repository.
#[derive(Debug)]
pub struct RslintStaged {
    pub config: RslintStagedConfig,
    pub cli_options: CliOptions,
    pub repo: Repo,
}

impl RslintStaged {
    /// The staged files as the contracts read them.
    pub open spec fn staged(&self) -> Seq<Seq<char>> {
        staged(self.repo.root@, self.repo.deltas@)
    }

    /// Resolves the staged files and plans the work of every rule on them, in
    /// the order of the rules. Whether the rules then run side by side or one
    /// after the other has no part in it.
    pub fn exec(&self) -> (plans: Vec<RulePlan>)
        ensures
            plans_view(plans@) == planned(
                self.config@,
                self.staged(),
                self.cli_options.relative,
                self.cli_options.cwd@,
            ),
    {
        let staged_files = self.repo.staged_files();
        let mut plans: Vec<RulePlan> = Vec::new();
        let mut i: usize = 0;
        while i < self.config.items.len()
            invariant
                i <= self.config.items.len(),
                plans.len() == i,
                staged_files.deep_view() == self.staged(),
                forall|k: int|
                    0 <= k < i ==> (#[trigger] plans[k])@ == planned_rule(
                        self.config.items[k]@,
                        self.staged(),
                        self.cli_options.relative,
                        self.cli_options.cwd@,
                    ),
            decreases self.config.items.len() - i,
        {
            plans.push(self.config.items[i].dispatch(&staged_files, &self.cli_options));
            i += 1;
        }
        plans
    }
}

} // verus!
