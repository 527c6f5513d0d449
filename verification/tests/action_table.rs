use ifrs::action::{lint_actions, match_code, Action, ActionExecRes, LintStep, LintSweep};
use ifrs::remote::{Diagnostic, ExecOutcome, ExecRequest, ExecResponse, RemoteError};

fn action(name: &str, triggers: &[u64], script: &str) -> Action {
    Action { name: name.to_string(), triggers: triggers.to_vec(), homescript: script.to_string() }
}

fn passed(output: &str) -> ExecResponse {
    ExecResponse { success: true, output: output.to_string(), errors: vec![] }
}

fn diagnostic(message: &str) -> Diagnostic {
    Diagnostic {
        error_type: "SyntaxError".to_string(),
        filename: "live".to_string(),
        line: 1,
        column: 1,
        index: 0,
        message: message.to_string(),
    }
}

fn rejected(errors: &[&str]) -> ExecResponse {
    ExecResponse {
        success: false,
        output: String::new(),
        errors: errors.iter().map(|e| diagnostic(e)).collect(),
    }
}

fn unreachable_server(detail: &str) -> RemoteError {
    RemoteError { detail: detail.to_string() }
}

fn check_of(script: &str) -> ExecRequest {
    ExecRequest { script: script.to_string(), validate_only: true }
}

#[test]
fn default_action_is_the_documented_one() {
    let action = Action::default();
    assert_eq!(action.name, "default");
    assert_eq!(action.triggers, vec![101]);
    assert_eq!(action.homescript, "print('Homescript')");
}

#[test]
fn clone_copies_every_field() {
    let action_before = action("tv-on", &[16753245, 7], "switch('tv', on)");
    assert_eq!(action_before.clone(), action_before);
}

#[test]
fn fires_on_any_trigger_and_on_nothing_else() {
    let a = action("a", &[100, 101], "s");
    assert!(a.fires_on(100));
    assert!(a.fires_on(101));
    assert!(!a.fires_on(102));
    assert!(!action("none", &[], "s").fires_on(0));
}

#[test]
fn match_code_misses_unknown_code() {
    let actions = vec![action("a", &[100], "s")];
    assert_eq!(match_code(&actions, 200), None);
}

#[test]
fn match_code_hits_any_trigger() {
    let actions = vec![action("a", &[100, 101], "s")];
    assert_eq!(match_code(&actions, 101), Some(&actions[0]));
    assert_eq!(match_code(&actions, 100), Some(&actions[0]));
}

#[test]
fn match_code_first_action_wins_on_shared_trigger() {
    let actions = vec![
        action("other", &[1], "o"),
        action("first", &[5, 9], "f"),
        action("second", &[9], "g"),
    ];
    assert_eq!(match_code(&actions, 9).map(|a| a.name.as_str()), Some("first"));
    assert_eq!(match_code(&actions, 1).map(|a| a.name.as_str()), Some("other"));
}

#[test]
fn match_code_gives_the_same_result_twice() {
    let actions = vec![action("a", &[3], "s"), action("b", &[3, 4], "t")];
    for code in 0..6 {
        assert_eq!(match_code(&actions, code), match_code(&actions, code));
    }
}

#[test]
fn match_code_on_empty_table_and_empty_triggers() {
    let none: Vec<Action> = vec![];
    assert_eq!(match_code(&none, 1), None);
    let actions = vec![action("unreachable", &[], "s"), action("b", &[1], "t")];
    assert_eq!(match_code(&actions, 1).map(|a| a.name.as_str()), Some("b"));
}

#[test]
fn lint_mixed_report_keeps_order_and_outcomes() {
    let actions = vec![action("one", &[1], "print(1)"), action("two", &[2], "print(2)")];
    let outcomes: Vec<ExecOutcome> = vec![Ok(passed("fine")), Ok(rejected(&["E1"]))];
    let run = lint_actions(&actions, &outcomes);
    assert_eq!(run.calls, vec![check_of("print(1)"), check_of("print(2)")]);
    assert_eq!(
        run.report,
        Some(Ok(vec![
            ActionExecRes { result: passed("fine"), name: "one", code: "print(1)" },
            ActionExecRes { result: rejected(&["E1"]), name: "two", code: "print(2)" },
        ]))
    );
}

#[test]
fn lint_failed_script_does_not_skip_later_actions() {
    let actions =
        vec![action("one", &[1], "print(1)"), action("two", &[2], "print(2)"), action("three", &[3], "print(3)")];
    let outcomes: Vec<ExecOutcome> =
        vec![Ok(rejected(&["E1", "E2"])), Ok(rejected(&[])), Ok(passed(""))];
    let run = lint_actions(&actions, &outcomes);
    assert_eq!(run.calls.len(), 3);
    let report = run.report.unwrap().unwrap();
    assert_eq!(report.len(), 3);
    assert_eq!(report[0].result.errors, vec![diagnostic("E1"), diagnostic("E2")]);
    assert_eq!(report[2].name, "three");
    assert!(report[2].result.success);
}

#[test]
fn lint_transport_error_aborts_before_next_action() {
    let actions =
        vec![action("one", &[1], "print(1)"), action("two", &[2], "print(2)"), action("three", &[3], "print(3)")];
    let outcomes: Vec<ExecOutcome> =
        vec![Ok(passed("")), Err(unreachable_server("timeout")), Ok(passed(""))];
    let run = lint_actions(&actions, &outcomes);
    assert_eq!(run.calls, vec![check_of("print(1)"), check_of("print(2)")]);
    assert_eq!(run.report, Some(Err(unreachable_server("timeout"))));
}

#[test]
fn lint_first_of_two_transport_errors_is_reported() {
    let actions = vec![action("one", &[1], "print(1)"), action("two", &[2], "print(2)")];
    let outcomes: Vec<ExecOutcome> =
        vec![Err(unreachable_server("first")), Err(unreachable_server("second"))];
    let run = lint_actions(&actions, &outcomes);
    assert_eq!(run.calls, vec![check_of("print(1)")]);
    assert_eq!(run.report, Some(Err(unreachable_server("first"))));
}

#[test]
fn lint_of_empty_table_is_an_empty_report_without_calls() {
    let actions: Vec<Action> = vec![];
    let run = lint_actions(&actions, &vec![Err(unreachable_server("never asked"))]);
    assert_eq!(run.calls, vec![]);
    assert_eq!(run.report, Some(Ok(vec![])));
}

#[test]
fn lint_waits_when_outcomes_run_out() {
    let actions = vec![action("one", &[1], "print(1)"), action("two", &[2], "print(2)")];
    let run = lint_actions(&actions, &vec![Ok(passed(""))]);
    assert_eq!(run.calls, vec![check_of("print(1)"), check_of("print(2)")]);
    assert_eq!(run.report, None);
}

#[test]
fn lint_ignores_outcomes_beyond_the_table() {
    let actions = vec![action("one", &[1], "print(1)")];
    let run = lint_actions(&actions, &vec![Ok(passed("a")), Err(unreachable_server("late"))]);
    assert_eq!(run.calls, vec![check_of("print(1)")]);
    assert_eq!(
        run.report,
        Some(Ok(vec![ActionExecRes { result: passed("a"), name: "one", code: "print(1)" }]))
    );
}

#[test]
fn lint_sweep_asks_once_per_action_in_order() {
    let actions = vec![action("one", &[1], "print(1)"), action("two", &[2], "print(2)")];
    let mut asked: Vec<ExecRequest> = vec![];
    let mut step = LintSweep::begin(&actions);
    let report = loop {
        match step {
            LintStep::Ask { sweep, request } => {
                let answer = if request.script == "print(1)" { rejected(&["E"]) } else { passed("") };
                asked.push(request);
                step = sweep.answer(Ok(answer));
            }
            LintStep::Done { results } => break results,
            LintStep::Aborted { error } => panic!("aborted: {:?}", error),
        }
    };
    assert_eq!(asked, vec![check_of("print(1)"), check_of("print(2)")]);
    assert_eq!(report.len(), 2);
    assert!(!report[0].result.success);
    assert!(report[1].result.success);
    assert_eq!(report[1].code, "print(2)");
}

#[test]
fn lint_sweep_ends_with_the_failed_call() {
    let actions = vec![action("one", &[1], "print(1)"), action("two", &[2], "print(2)")];
    let first = match LintSweep::begin(&actions) {
        LintStep::Ask { sweep, request } => {
            assert_eq!(request, check_of("print(1)"));
            sweep.answer(Err(unreachable_server("down")))
        }
        other => panic!("unexpected step {:?}", other),
    };
    assert!(matches!(first, LintStep::Aborted { error } if error.detail == "down"));
}

#[test]
fn lint_sweep_over_empty_table_is_done_at_once() {
    let actions: Vec<Action> = vec![];
    assert!(matches!(LintSweep::begin(&actions), LintStep::Done { results } if results.is_empty()));
}
