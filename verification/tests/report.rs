use rslint_staged::command::Invocation;
use rslint_staged::dispatch::{CommandPlan, RulePlan};
use rslint_staged::report::{ExecutionReport, Failure, Outcome, RuleResult};

fn texts(items: &[&str]) -> Vec<String> {
    items.iter().map(|s| s.to_string()).collect()
}

fn plan(pattern: &str, files: &[&str], commands: &[&str]) -> RulePlan {
    RulePlan {
        pattern: pattern.to_string(),
        files: texts(files),
        commands: commands
            .iter()
            .map(|c| CommandPlan {
                command: c.to_string(),
                invocation: if c.trim().is_empty() {
                    None
                } else {
                    Some(Invocation {
                        program: c.to_string(),
                        args: texts(files),
                        cwd: "/repo".to_string(),
                    })
                },
            })
            .collect(),
    }
}

fn result(pattern: &str, files: &[&str], commands: &[&str], outcomes: &[Outcome]) -> RuleResult {
    RuleResult::new(plan(pattern, files, commands), outcomes.to_vec()).unwrap()
}

fn failure(pattern: &str, command: &str, files: &[&str], outcome: Outcome) -> Failure {
    Failure {
        pattern: pattern.to_string(),
        command: command.to_string(),
        files: texts(files),
        outcome,
    }
}

#[test]
fn exit_status_zero_is_success() {
    assert_eq!(Outcome::from_exit_code(Some(0)), Outcome::Success);
    assert!(Outcome::from_exit_code(Some(0)).is_success());
}

#[test]
fn another_exit_status_is_a_failure() {
    assert_eq!(Outcome::from_exit_code(Some(2)), Outcome::Failed(Some(2)));
    assert_eq!(Outcome::from_exit_code(Some(-1)), Outcome::Failed(Some(-1)));
    assert!(!Outcome::from_exit_code(Some(1)).is_success());
}

#[test]
fn no_exit_status_is_a_failure() {
    assert_eq!(Outcome::from_exit_code(None), Outcome::Failed(None));
    assert!(!Outcome::SpawnFailed.is_success());
}

#[test]
fn a_rule_result_needs_one_outcome_for_each_command() {
    assert_eq!(RuleResult::new(plan("*.js", &[], &["a", "b"]), vec![Outcome::Success]), None);
    assert_eq!(RuleResult::new(plan("*.js", &[], &[]), vec![Outcome::Success]), None);
    assert!(RuleResult::new(plan("*.js", &[], &[]), Vec::new()).is_some());
}

#[test]
fn a_rule_result_keeps_plan_and_outcomes() {
    let outcomes = [Outcome::Success, Outcome::Failed(Some(3))];
    let rule = result("*.js", &["a.js", "b.js"], &["x", "y"], &outcomes);
    assert_eq!(rule.plan(), &plan("*.js", &["a.js", "b.js"], &["x", "y"]));
    assert_eq!(rule.outcomes(), &outcomes.to_vec());
    assert_eq!(rule.matched_files(), 2);
}

#[test]
fn a_blank_command_is_on_record_as_not_started() {
    let rule = result("*.js", &[], &[" ", "x"], &[Outcome::Success, Outcome::Success]);
    assert_eq!(rule.outcomes(), &vec![Outcome::SpawnFailed, Outcome::Success]);
}

#[test]
fn a_run_of_successes_succeeds() {
    let report = ExecutionReport {
        rules: vec![
            result("*.js", &["a.js"], &["x", "y"], &[Outcome::Success, Outcome::Success]),
            result("*.md", &[], &[], &[]),
        ],
    };
    assert!(report.success());
    assert_eq!(report.exit_code(), 0);
    assert_eq!(report.failures(), Vec::<Failure>::new());
}

#[test]
fn an_empty_run_succeeds() {
    let report = ExecutionReport { rules: Vec::new() };
    assert!(report.success());
    assert_eq!(report.exit_code(), 0);
}

#[test]
fn a_failing_command_fails_the_run_and_is_named() {
    let report = ExecutionReport {
        rules: vec![
            result("*.js", &["a.js"], &["eslint", "prettier"], &[
                Outcome::Success,
                Outcome::from_exit_code(Some(1)),
            ]),
            result("*.md", &["x.md"], &["cmd"], &[Outcome::Success]),
        ],
    };
    assert!(!report.success());
    assert_eq!(report.exit_code(), 1);
    assert_eq!(
        report.failures(),
        vec![failure("*.js", "prettier", &["a.js"], Outcome::Failed(Some(1)))]
    );
}

#[test]
fn a_spawn_failure_fails_the_run_and_spares_the_other_rules() {
    let report = ExecutionReport {
        rules: vec![
            result("*.js", &["a.js"], &["missing"], &[Outcome::SpawnFailed]),
            result("*.md", &["x.md"], &["cmd"], &[Outcome::Success]),
        ],
    };
    assert_eq!(report.exit_code(), 1);
    assert_eq!(report.failures(), vec![failure("*.js", "missing", &["a.js"], Outcome::SpawnFailed)]);
    assert_eq!(report.rules[1].outcomes(), &vec![Outcome::Success]);
}

#[test]
fn failures_come_in_the_order_of_rules_and_commands() {
    let report = ExecutionReport {
        rules: vec![
            result("a", &[], &["1", "2", "3"], &[
                Outcome::Failed(Some(1)),
                Outcome::Success,
                Outcome::Failed(None),
            ]),
            result("b", &["f"], &["4"], &[Outcome::SpawnFailed]),
        ],
    };
    assert_eq!(
        report.failures(),
        vec![
            failure("a", "1", &[], Outcome::Failed(Some(1))),
            failure("a", "3", &[], Outcome::Failed(None)),
            failure("b", "4", &["f"], Outcome::SpawnFailed),
        ]
    );
}

#[test]
fn the_order_of_the_rules_changes_the_order_of_the_failures_only() {
    let make = |order: &[usize]| {
        let rules: Vec<RuleResult> = order
            .iter()
            .map(|i| match i {
                0 => result("a", &["x"], &["1", "2"], &[Outcome::Failed(Some(1)), Outcome::Success]),
                1 => result("b", &[], &["3"], &[Outcome::SpawnFailed]),
                _ => result("c", &["y"], &["4"], &[Outcome::Success]),
            })
            .collect();
        ExecutionReport { rules }
    };
    let first = make(&[0, 1, 2]);
    let second = make(&[2, 1, 0]);
    assert_eq!(first.success(), second.success());
    assert_eq!(first.exit_code(), second.exit_code());
    let mut one = first.failures();
    let mut two = second.failures();
    assert_eq!(one.len(), two.len());
    one.retain(|f| !two.contains(f));
    assert!(one.is_empty());
    two.retain(|f| !first.failures().contains(f));
    assert!(two.is_empty());
}
