//! What the program does from its start to its end, in each of its modes.

use vstd::prelude::*;
use vstd::string::*;
use crate::action::{ActionExecRes, ActionExecResView, report};
use crate::config::{Error, ErrorView, HardwareConfig};
use crate::remote::{diagnostics_text, display_diagnostics, RemoteError};
use crate::scanner::ScanError;
use crate::text::{messages, Level, Message, MessageView, Sink};

verus! {

/// What the operator asked the program to do.
#[derive(Clone, Copy, Debug, PartialEq, Eq, Structural)]
pub enum Mode {
    /// Read the receiver without end and run the scripts of the buttons.
    Run,
    /// Read one window of codes and name the button that was pressed.
    Discover,
    /// Check the script of every action and print a report.
    Lint,
}

/// One thing that the program does after it has its configuration.
#[derive(Clone, Copy, Debug, PartialEq, Eq, Structural)]
pub enum Task {
    /// Connect to the smart-home server.
    Connect,
    /// Take hold of the receiver on the given pin.
    Acquire { pin: u8 },
    /// Sweep the action table and print the report.
    Lint,
    /// Run one discovery.
    Discover,
    /// Run the dispatch loop.
    Dispatch,
    /// Warn that the hardware is switched off, and end.
    Retire,
}

/// The tasks of `mode` under `hardware`, in the order in which they are done.
///
/// Only a lint and a run need the server. Only a discovery and a run need the
/// receiver, and with the hardware switched off they end before they touch
/// it.
pub open spec fn plan(mode: Mode, hardware: HardwareConfig) -> Seq<Task> {
    match mode {
        Mode::Lint => seq![Task::Connect, Task::Lint],
        Mode::Discover => if hardware.enabled {
            seq![Task::Acquire { pin: hardware.pin }, Task::Discover]
        } else {
            seq![Task::Retire]
        },
        Mode::Run => if hardware.enabled {
            seq![Task::Connect, Task::Acquire { pin: hardware.pin }, Task::Dispatch]
        } else {
            seq![Task::Connect, Task::Retire]
        },
    }
}

/// Lays out what the program does in `mode` once it has its configuration.
pub fn startup(mode: Mode, hardware: HardwareConfig) -> (tasks: Vec<Task>)
    ensures
        tasks@ == plan(mode, hardware),
{
    let mut tasks: Vec<Task> = Vec::new();
    match mode {
        Mode::Lint => {
            tasks.push(Task::Connect);
            tasks.push(Task::Lint);
        },
        Mode::Discover => {
            if hardware.enabled {
                tasks.push(Task::Acquire { pin: hardware.pin });
                tasks.push(Task::Discover);
            } else {
                tasks.push(Task::Retire);
            }
        },
        Mode::Run => {
            tasks.push(Task::Connect);
            if hardware.enabled {
                tasks.push(Task::Acquire { pin: hardware.pin });
                tasks.push(Task::Dispatch);
            } else {
                tasks.push(Task::Retire);
            }
        },
    }
    assert(tasks@ =~= plan(mode, hardware));
    tasks
}

/// Where the configuration file is looked for unless the operator says
/// otherwise.
pub const DEFAULT_CONFIG_PATH: &'static str = "/etc/ifrs/config.toml";

/// The path of the configuration file: the one that the operator chose, or
/// the usual place.
pub fn config_path(chosen: Option<String>) -> (path: String)
    ensures
        match chosen {
            Some(given) => path@ == given@,
            None => path@ == DEFAULT_CONFIG_PATH@,
        },
{
    match chosen {
        Some(given) => given,
        None => DEFAULT_CONFIG_PATH.to_owned(),
    }
}

/// The status of a program that ends without a failure. A lint ends so
/// whatever it reports of the scripts.
pub const CLEAN_EXIT: i32 = 0;

/// How the program ends: the status it exits with, and its last message.
#[derive(Debug, PartialEq, Eq)]
pub struct Exit {
    pub code: i32,
    pub message: Message,
}

/// The warning of a program that ends because the hardware is switched off.
pub open spec fn retire_warning() -> MessageView {
    MessageView { sink: Sink::Log(Level::Warn), text: "Hardware is currently disabled, exiting..."@ }
}

/// Decides how the program ends at [`Task::Retire`]: cleanly, with a warning.
pub fn retire() -> (exit: Exit)
    ensures
        exit.code == CLEAN_EXIT,
        exit.message@ == retire_warning(),
{
    Exit {
        code: CLEAN_EXIT,
        message: Message {
            sink: Sink::Log(Level::Warn),
            text: "Hardware is currently disabled, exiting...".to_owned(),
        },
    }
}

/// Something that went wrong and ends what the program was doing.
#[derive(Debug, PartialEq, Eq)]
pub enum Failure {
    /// The configuration at `path` could not be had.
    Config { path: String, error: Error },
    /// The server could not be reached at startup.
    Connect(RemoteError),
    /// The receiver could not be taken hold of.
    Acquire(ScanError),
    /// A read of the receiver failed, during a discovery or in the dispatch loop.
    Scan(ScanError),
    /// A call of the lint sweep did not reach the server.
    Lint(RemoteError),
}

/// The status with which the program exits after `failure`.
///
/// A lint only reports: a sweep that was aborted does not fail the program.
/// Every other failure does.
pub open spec fn exit_code(failure: Failure) -> i32 {
    match failure {
        Failure::Lint(_) => CLEAN_EXIT,
        _ => 1,
    }
}

/// The one message with which the program ends after `failure`.
pub open spec fn last_words(failure: Failure) -> MessageView {
    match failure {
        Failure::Config { path, error } => MessageView {
            sink: Sink::Log(Level::Error),
            text: "Could not read nor create config file (at "@ + path@ + "): "@ + match error@ {
                ErrorView::IO(detail) => "IO error: "@ + detail,
                ErrorView::Parse(detail) => "invalid TOML syntax: "@ + detail,
            },
        },
        Failure::Connect(error) => MessageView {
            sink: Sink::Log(Level::Error),
            text: "Could not create Smarthome client: failed to establish connection: "@ + error@,
        },
        Failure::Acquire(error) => MessageView {
            sink: Sink::Log(Level::Error),
            text: "Could not initialize scanner hardware: "@ + error@,
        },
        Failure::Scan(error) => MessageView {
            sink: Sink::Log(Level::Error),
            text: "Scanner failed unexpectedly: "@ + error@,
        },
        Failure::Lint(error) => MessageView {
            sink: Sink::Stderr,
            text: "Could not test actions Homescript code: Smarthome error: "@ + error@,
        },
    }
}

/// Decides how the program ends after `failure`.
pub fn fail(failure: &Failure) -> (exit: Exit)
    ensures
        exit.code == exit_code(*failure),
        exit.message@ == last_words(*failure),
{
    match failure {
        Failure::Config { path, error } => {
            let mut text = "Could not read nor create config file (at ".to_owned();
            text.append(path.as_str());
            text.append("): ");
            let mut cause = match error {
                Error::IO(detail) => {
                    let mut cause = "IO error: ".to_owned();
                    cause.append(detail.as_str());
                    cause
                },
                Error::Parse(detail) => {
                    let mut cause = "invalid TOML syntax: ".to_owned();
                    cause.append(detail.as_str());
                    cause
                },
            };
            text.append(cause.as_str());
            Exit { code: 1, message: Message { sink: Sink::Log(Level::Error), text } }
        },
        Failure::Connect(error) => {
            let mut text =
                "Could not create Smarthome client: failed to establish connection: ".to_owned();
            text.append(error.detail.as_str());
            Exit { code: 1, message: Message { sink: Sink::Log(Level::Error), text } }
        },
        Failure::Acquire(error) => {
            let mut text = "Could not initialize scanner hardware: ".to_owned();
            text.append(error.detail.as_str());
            Exit { code: 1, message: Message { sink: Sink::Log(Level::Error), text } }
        },
        Failure::Scan(error) => {
            let mut text = "Scanner failed unexpectedly: ".to_owned();
            text.append(error.detail.as_str());
            Exit { code: 1, message: Message { sink: Sink::Log(Level::Error), text } }
        },
        Failure::Lint(error) => {
            let mut text = "Could not test actions Homescript code: Smarthome error: ".to_owned();
            text.append(error.detail.as_str());
            Exit { code: CLEAN_EXIT, message: Message { sink: Sink::Stderr, text } }
        },
    }
}

/// What the lint report says of one entry.
///
/// A script that passed the check gets a line on standard output. One that
/// did not is reported at error level, with its diagnostics, one per line.
pub open spec fn lint_message(entry: ActionExecResView) -> MessageView {
    if entry.result.success {
        MessageView {
            sink: Sink::Stdout,
            text: "Check successful: Homescript of action@"@ + entry.name + " is working"@,
        }
    } else {
        MessageView {
            sink: Sink::Log(Level::Error),
            text: "Check failed: Homescript of action@"@ + entry.name
                + " contains potential issues:\n"@ + diagnostics_text(entry.result.errors),
        }
    }
}

/// Words the report of a lint sweep: one message per entry, in the order of
/// the entries.
pub fn lint_report<'act>(results: &Vec<ActionExecRes<'act>>) -> (lines: Vec<Message>)
    ensures
        messages(lines@) == report(results@).map_values(|entry: ActionExecResView| lint_message(entry)),
{
    let mut lines: Vec<Message> = Vec::new();
    let mut i: usize = 0;
    while i < results.len()
        invariant
            i <= results.len(),
            messages(lines@) == report(results@).take(i as int).map_values(
                |entry: ActionExecResView| lint_message(entry),
            ),
        decreases results.len() - i,
    {
        let entry = &results[i];
        let ghost before = lines@;
        let message = if entry.result.success {
            let mut text = "Check successful: Homescript of action@".to_owned();
            text.append(entry.name);
            text.append(" is working");
            Message { sink: Sink::Stdout, text }
        } else {
            let mut text = "Check failed: Homescript of action@".to_owned();
            text.append(entry.name);
            text.append(" contains potential issues:\n");
            text.append(display_diagnostics(&entry.result.errors).as_str());
            Message { sink: Sink::Log(Level::Error), text }
        };
        assert(message@ == lint_message(report(results@)[i as int]));
        lines.push(message);
        proof {
            let all = report(results@);
            assert(all.take(i + 1) =~= all.take(i as int).push(all[i as int]));
            assert(messages(lines@) =~= messages(before).push(message@));
            assert(all.take(i + 1).map_values(|entry: ActionExecResView| lint_message(entry))
                =~= all.take(i as int).map_values(
                |entry: ActionExecResView| lint_message(entry),
            ).push(lint_message(all[i as int])));
        }
        i = i + 1;
    }
    assert(report(results@).take(results.len() as int) =~= report(results@));
    lines
}

} // verus!
