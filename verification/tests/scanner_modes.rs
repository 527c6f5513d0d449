use ifrs::action::Action;
use ifrs::remote::{
    display_diagnostics, Diagnostic, ExecOutcome, ExecRequest, ExecResponse, RemoteError,
};
use ifrs::scanner::{
    dispatch, handle_action, most_frequent, start_discover, start_scan, Discovery, DiscoveryStep,
    Execution, ScanError, ScanOutcome, ScanStep, DISCOVERY_WINDOW,
};
use ifrs::text::{Level, Message, Sink};

const BANNER: &str = "Press the desired button to get started.\nHint: the most likely correct code will be selected automatically.";

fn action(name: &str, triggers: &[u64], script: &str) -> Action {
    Action { name: name.to_string(), triggers: triggers.to_vec(), homescript: script.to_string() }
}

fn reads(codes: &[u64]) -> Vec<ScanOutcome> {
    codes.iter().map(|code| Ok(*code)).collect()
}

fn broken(detail: &str) -> ScanError {
    ScanError { detail: detail.to_string() }
}

fn run_of(action: &Action) -> Execution {
    Execution {
        action: action.clone(),
        request: ExecRequest { script: action.homescript.clone(), validate_only: false },
    }
}

#[test]
fn window_is_ten_reads() {
    assert_eq!(DISCOVERY_WINDOW, 10);
}

#[test]
fn most_frequent_of_nothing_is_nothing() {
    assert_eq!(most_frequent(&[]), None);
}

#[test]
fn most_frequent_picks_the_mode() {
    assert_eq!(most_frequent(&[7, 7, 9, 7, 9, 3, 7, 9, 9, 7]), Some(7));
    assert_eq!(most_frequent(&[42; 10]), Some(42));
    assert_eq!(most_frequent(&[5, 5, 7, 5, 7, 7, 7, 5, 7, 7]), Some(7));
    assert_eq!(most_frequent(&[1]), Some(1));
    assert_eq!(most_frequent(&[1, 2, 2]), Some(2));
}

#[test]
fn most_frequent_breaks_ties_by_first_read() {
    assert_eq!(most_frequent(&[4, 8, 8, 4]), Some(4));
    assert_eq!(most_frequent(&[8, 4, 4, 8]), Some(8));
    assert_eq!(most_frequent(&[1, 2, 3]), Some(1));
    assert_eq!(most_frequent(&[3, 1, 2, 2, 1, 3, 0]), Some(3));
    assert_eq!(most_frequent(&[u64::MAX, 0, 0, u64::MAX]), Some(u64::MAX));
}

#[test]
fn discovery_returns_the_mode_of_the_window() {
    let run = start_discover(&reads(&[7, 7, 9, 7, 9, 3, 7, 9, 9, 7]));
    assert_eq!(run.outcome, Some(Ok(7)));
}

#[test]
fn discovery_of_a_constant_stream() {
    let run = start_discover(&reads(&[42; 10]));
    assert_eq!(run.outcome, Some(Ok(42)));
}

#[test]
fn discovery_output_ends_with_the_result() {
    let run = start_discover(&reads(&[5, 5, 7, 5, 7, 7, 7, 5, 7, 7]));
    assert_eq!(run.outcome, Some(Ok(7)));
    assert_eq!(
        run.lines,
        vec![
            BANNER.to_string(),
            "[0] => 5".to_string(),
            "[1] => 5".to_string(),
            "[2] => 7".to_string(),
            "[3] => 5".to_string(),
            "[4] => 7".to_string(),
            "[5] => 7".to_string(),
            "[6] => 7".to_string(),
            "[7] => 5".to_string(),
            "[8] => 7".to_string(),
            "[9] => 7".to_string(),
            "=== Result from inputs ===\n7".to_string(),
        ]
    );
    let printed = run.lines.join("\n");
    assert_eq!(printed.lines().last(), Some("7"));
}

#[test]
fn discovery_fails_with_the_read_error_at_every_step() {
    for k in 0..10 {
        let mut stream = reads(&[6; 12]);
        stream[k] = Err(broken("pin lost"));
        let run = start_discover(&stream);
        assert_eq!(run.outcome, Some(Err(broken("pin lost"))));
        assert_eq!(run.lines.len(), 1 + k);
        assert_eq!(run.lines[0], BANNER);
        assert!(run.lines.iter().all(|line| !line.starts_with("=== Result")));
    }
}

#[test]
fn discovery_ignores_what_follows_the_window() {
    let mut stream = reads(&[1, 1, 1, 1, 1, 1, 2, 2, 2, 2, 2, 2, 2, 2, 2]);
    stream.push(Err(broken("late")));
    let run = start_discover(&stream);
    assert_eq!(run.outcome, Some(Ok(1)));
    assert_eq!(run.lines.len(), 12);
}

#[test]
fn discovery_waits_for_a_full_window() {
    let run = start_discover(&reads(&[3, 3, 3]));
    assert_eq!(run.outcome, None);
    assert_eq!(run.lines, vec![BANNER, "[0] => 3", "[1] => 3", "[2] => 3"]);
    let idle = start_discover(&vec![]);
    assert_eq!(idle.outcome, None);
    assert_eq!(idle.lines, vec![BANNER]);
}

#[test]
fn discovery_steps_print_progress_and_end_after_ten_reads() {
    let mut step = Discovery::begin();
    let mut printed: Vec<String> = vec![];
    let mut scans = 0;
    let codes = [9u64, 8, 9, 8, 8, 9, 1, 1, 1, 16753245];
    let result = loop {
        match step {
            DiscoveryStep::Scan { discovery, lines } => {
                printed.extend(lines);
                step = discovery.observe(Ok(codes[scans]));
                scans += 1;
            }
            DiscoveryStep::Done { lines, code } => {
                printed.extend(lines);
                break code;
            }
            DiscoveryStep::Failed { error } => panic!("failed: {:?}", error),
        }
    };
    assert_eq!(scans, 10);
    assert_eq!(result, 9);
    assert_eq!(printed[0], BANNER);
    assert_eq!(printed[1], "[0] => 9");
    assert_eq!(printed[10], "[9] => 16753245");
    assert_eq!(printed[11], "=== Result from inputs ===\n9");
    assert_eq!(printed.len(), 12);
}

#[test]
fn discovery_step_fails_at_once() {
    let first = match Discovery::begin() {
        DiscoveryStep::Scan { discovery, .. } => discovery.observe(Ok(1)),
        other => panic!("unexpected step {:?}", other),
    };
    let second = match first {
        DiscoveryStep::Scan { discovery, lines } => {
            assert_eq!(lines, vec!["[0] => 1"]);
            discovery.observe(Err(broken("gone")))
        }
        other => panic!("unexpected step {:?}", other),
    };
    assert!(matches!(second, DiscoveryStep::Failed { error } if error == broken("gone")));
}

#[test]
fn run_miss_starts_nothing_and_goes_on() {
    let actions = vec![action("a", &[100], "s")];
    assert_eq!(dispatch(&actions, Ok(200)), ScanStep::Idle);
    let run = start_scan(&actions, &reads(&[200]));
    assert_eq!(run.spawned, vec![]);
    assert_eq!(run.failure, None);
}

#[test]
fn run_hit_starts_exactly_one_execution() {
    let actions = vec![action("a", &[100, 101], "s")];
    let run = start_scan(&actions, &reads(&[101]));
    assert_eq!(run.spawned, vec![run_of(&actions[0])]);
    assert_eq!(run.spawned[0].request, ExecRequest { script: "s".to_string(), validate_only: false });
    assert_eq!(run.failure, None);
}

#[test]
fn run_starts_one_execution_per_press() {
    let actions = vec![action("a", &[100], "s")];
    let run = start_scan(&actions, &reads(&[100, 100, 100]));
    assert_eq!(run.spawned, vec![run_of(&actions[0]), run_of(&actions[0]), run_of(&actions[0])]);
}

#[test]
fn run_never_merges_repeated_presses() {
    let actions = vec![action("other", &[1], "o"), action("a", &[7, 8], "s")];
    for n in [0usize, 1, 2, 17, 100] {
        let presses: Vec<u64> = (0..n).map(|i| if i % 2 == 0 { 7 } else { 8 }).collect();
        let run = start_scan(&actions, &reads(&presses));
        assert_eq!(run.spawned.len(), n);
        assert!(run.spawned.iter().all(|e| *e == run_of(&actions[1])));
    }
}

#[test]
fn run_keeps_the_order_of_the_reads() {
    let actions = vec![action("a", &[1], "sa"), action("b", &[2], "sb")];
    let run = start_scan(&actions, &reads(&[2, 9, 1, 1, 2]));
    let names: Vec<&str> = run.spawned.iter().map(|e| e.action.name.as_str()).collect();
    assert_eq!(names, vec!["b", "a", "a", "b"]);
}

#[test]
fn run_ends_with_the_first_failed_read() {
    let actions = vec![action("a", &[1], "sa")];
    let mut stream = reads(&[1, 1]);
    stream.push(Err(broken("first")));
    stream.push(Ok(1));
    stream.push(Err(broken("second")));
    let run = start_scan(&actions, &stream);
    assert_eq!(run.spawned.len(), 2);
    assert_eq!(run.failure, Some(broken("first")));
    assert_eq!(dispatch(&actions, Err(broken("x"))), ScanStep::Stop { error: broken("x") });
}

#[test]
fn dispatch_hands_out_a_copy_of_the_first_matching_action() {
    let actions = vec![action("first", &[5], "f"), action("second", &[5], "g")];
    assert_eq!(dispatch(&actions, Ok(5)), ScanStep::Spawn { execution: run_of(&actions[0]) });
    assert_eq!(actions[0].homescript, "f");
}

#[test]
fn finished_execution_is_noted_at_debug_level() {
    let a = action("tv", &[1], "s");
    let outcome: ExecOutcome =
        Ok(ExecResponse { success: true, output: "done".to_string(), errors: vec![] });
    assert_eq!(
        handle_action(&a, &outcome),
        vec![Message {
            sink: Sink::Log(Level::Debug),
            text: "Successfully executed Homescript of action@tv: done".to_string(),
        }]
    );
}

#[test]
fn failed_script_is_reported_with_its_diagnostics() {
    let a = action("tv", &[1], "s");
    let outcome: ExecOutcome = Ok(ExecResponse {
        success: false,
        output: "ignored".to_string(),
        errors: vec![
            Diagnostic {
                error_type: "SyntaxError".to_string(),
                filename: "live".to_string(),
                line: 3,
                column: 14,
                index: 40,
                message: "E1".to_string(),
            },
            Diagnostic {
                error_type: "TypeError".to_string(),
                filename: "lib.hms".to_string(),
                line: 120,
                column: 1,
                index: 2048,
                message: "E2".to_string(),
            },
        ],
    });
    assert_eq!(
        handle_action(&a, &outcome),
        vec![
            Message {
                sink: Sink::Log(Level::Error),
                text: "HMS execution: action@tv failed".to_string(),
            },
            Message {
                sink: Sink::Stderr,
                text: "SyntaxError at live:3:14\n  E1\nTypeError at lib.hms:120:1\n  E2"
                    .to_string(),
            },
        ]
    );
}

#[test]
fn failed_call_is_reported_at_error_level() {
    let a = action("tv", &[1], "s");
    let outcome: ExecOutcome = Err(RemoteError { detail: "Reqwest(timeout)".to_string() });
    assert_eq!(
        handle_action(&a, &outcome),
        vec![Message {
            sink: Sink::Log(Level::Error),
            text: "Could not execute HMS code: Smarthome error Reqwest(timeout)".to_string(),
        }]
    );
}

#[test]
fn diagnostics_read_as_kind_place_and_message() {
    let one = Diagnostic {
        error_type: "ValueError".to_string(),
        filename: "main.hms".to_string(),
        line: 7,
        column: 21,
        index: 99,
        message: "switch 'tv' not found".to_string(),
    };
    assert_eq!(display_diagnostics(&vec![]), "");
    assert_eq!(
        display_diagnostics(&vec![one.clone()]),
        "ValueError at main.hms:7:21\n  switch 'tv' not found"
    );
    let zero = Diagnostic {
        error_type: String::new(),
        filename: String::new(),
        line: 0,
        column: usize::MAX,
        index: 0,
        message: String::new(),
    };
    assert_eq!(
        display_diagnostics(&vec![zero, one]),
        format!(
            " at :0:{}\n  \nValueError at main.hms:7:21\n  switch 'tv' not found",
            usize::MAX
        )
    );
}
