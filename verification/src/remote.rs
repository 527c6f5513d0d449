//! What the bridge exchanges with the smart-home server.
//!
//! The server runs scripts on request. A request names the source text and
//! says whether the script shall be executed or only checked; requests of the
//! bridge carry no arguments. The answer tells whether the script succeeded,
//! what it printed, and which diagnostics it raised. A call that never got an
//! answer ends in a [`RemoteError`].

use vstd::prelude::*;
use crate::text::{decimal, join_lines, joined, texts};

verus! {

/// One script execution asked of the server.
#[derive(Debug, PartialEq, Eq)]
pub struct ExecRequest {
    /// Source text of the script.
    pub script: String,
    /// `true` asks the server to check the script without running it.
    pub validate_only: bool,
}

/// What an [`ExecRequest`] holds, as mathematical values.
pub struct ExecRequestView {
    pub script: Seq<char>,
    pub validate_only: bool,
}

impl View for ExecRequest {
    type V = ExecRequestView;

    open spec fn view(&self) -> ExecRequestView {
        ExecRequestView { script: self.script@, validate_only: self.validate_only }
    }
}

/// The views of a sequence of requests, in order.
pub open spec fn requests(calls: Seq<ExecRequest>) -> Seq<ExecRequestView> {
    calls.map_values(|request: ExecRequest| request@)
}

/// One diagnostic that the server raised against a script.
#[derive(Debug, PartialEq, Eq)]
pub struct Diagnostic {
    /// The kind of the diagnostic, as the server names it.
    pub error_type: String,
    /// The file that the diagnostic points into.
    pub filename: String,
    /// Line of the place, counted from one.
    pub line: usize,
    /// Column of the place, counted from one.
    pub column: usize,
    /// Offset of the place from the start of the file.
    pub index: usize,
    /// What is wrong at the place.
    pub message: String,
}

/// What a [`Diagnostic`] holds, as mathematical values.
pub struct DiagnosticView {
    pub error_type: Seq<char>,
    pub filename: Seq<char>,
    pub line: nat,
    pub column: nat,
    pub index: nat,
    pub message: Seq<char>,
}

impl View for Diagnostic {
    type V = DiagnosticView;

    open spec fn view(&self) -> DiagnosticView {
        DiagnosticView {
            error_type: self.error_type@,
            filename: self.filename@,
            line: self.line as nat,
            column: self.column as nat,
            index: self.index as nat,
            message: self.message@,
        }
    }
}

impl Clone for Diagnostic {
    fn clone(&self) -> (copy: Diagnostic)
        ensures
            copy@ == self@,
    {
        Diagnostic {
            error_type: self.error_type.clone(),
            filename: self.filename.clone(),
            line: self.line,
            column: self.column,
            index: self.index,
            message: self.message.clone(),
        }
    }
}

/// The views of a sequence of diagnostics, in order.
pub open spec fn diagnostics(errors: Seq<Diagnostic>) -> Seq<DiagnosticView> {
    errors.map_values(|diagnostic: Diagnostic| diagnostic@)
}

/// How a diagnostic reads: its kind and its place on one line, and its
/// message, indented, on the next.
pub open spec fn diagnostic_text(diagnostic: DiagnosticView) -> Seq<char> {
    diagnostic.error_type + " at "@ + diagnostic.filename + ":"@ + decimal(diagnostic.line) + ":"@
        + decimal(diagnostic.column) + "\n  "@ + diagnostic.message
}

/// How a list of diagnostics reads: each as [`diagnostic_text`] says, one
/// after the other, with a line feed between each two.
pub open spec fn diagnostics_text(errors: Seq<DiagnosticView>) -> Seq<char> {
    joined(errors.map_values(|diagnostic: DiagnosticView| diagnostic_text(diagnostic)), seq!['\n'])
}

/// Words one diagnostic as the server's client library does.
///
/// Calls the `Display` implementation of
/// `smarthome_sdk_rs::HomescriptExecError` on an error with the fields of
/// `diagnostic`. The contract claims what that implementation writes: the
/// kind, the word `at`, then file name, line and column with colons between
/// them, a line feed, two spaces and the message; the numbers in decimal
/// notation, and every text as it is.
#[verifier::external_body]
fn display_diagnostic(diagnostic: &Diagnostic) -> (text: String)
    ensures
        text@ == diagnostic_text(diagnostic@),
{
    let error = smarthome_sdk_rs::HomescriptExecError {
        error_type: diagnostic.error_type.clone(),
        location: smarthome_sdk_rs::HomescriptExecErrorLocation {
            filename: diagnostic.filename.clone(),
            line: diagnostic.line,
            column: diagnostic.column,
            index: diagnostic.index,
        },
        message: diagnostic.message.clone(),
    };
    error.to_string()
}

/// Words a list of diagnostics, one after the other.
pub fn display_diagnostics(errors: &Vec<Diagnostic>) -> (text: String)
    ensures
        text@ == diagnostics_text(diagnostics(errors@)),
{
    let mut lines: Vec<String> = Vec::new();
    let mut i: usize = 0;
    while i < errors.len()
        invariant
            i <= errors.len(),
            texts(lines@) == diagnostics(errors@).take(i as int).map_values(
                |diagnostic: DiagnosticView| diagnostic_text(diagnostic),
            ),
        decreases errors.len() - i,
    {
        let ghost before = lines@;
        let line = display_diagnostic(&errors[i]);
        lines.push(line);
        proof {
            let all = diagnostics(errors@);
            assert(all.take(i + 1) =~= all.take(i as int).push(all[i as int]));
            assert(texts(lines@) =~= texts(before).push(line@));
            assert(all.take(i + 1).map_values(
                |diagnostic: DiagnosticView| diagnostic_text(diagnostic),
            ) =~= all.take(i as int).map_values(
                |diagnostic: DiagnosticView| diagnostic_text(diagnostic),
            ).push(diagnostic_text(all[i as int])));
        }
        i = i + 1;
    }
    assert(diagnostics(errors@).take(errors.len() as int) =~= diagnostics(errors@));
    join_lines(&lines)
}

/// The server's answer to an [`ExecRequest`].
#[derive(Debug, PartialEq, Eq)]
pub struct ExecResponse {
    /// Whether the script ran, or checked, without errors.
    pub success: bool,
    /// What the script printed.
    pub output: String,
    /// The diagnostics that the server raised.
    pub errors: Vec<Diagnostic>,
}

/// What an [`ExecResponse`] holds, as mathematical values.
pub struct ExecResponseView {
    pub success: bool,
    pub output: Seq<char>,
    pub errors: Seq<DiagnosticView>,
}

impl View for ExecResponse {
    type V = ExecResponseView;

    open spec fn view(&self) -> ExecResponseView {
        ExecResponseView {
            success: self.success,
            output: self.output@,
            errors: diagnostics(self.errors@),
        }
    }
}

impl Clone for ExecResponse {
    fn clone(&self) -> (copy: ExecResponse)
        ensures
            copy@ == self@,
    {
        let errors = self.errors.clone();
        assert(diagnostics(errors@) =~= diagnostics(self.errors@));
        ExecResponse { success: self.success, output: self.output.clone(), errors }
    }
}

/// A call that failed before the server could answer it.
#[derive(Debug, PartialEq, Eq)]
pub struct RemoteError {
    /// Description of the failure, for the operator.
    pub detail: String,
}

impl View for RemoteError {
    type V = Seq<char>;

    open spec fn view(&self) -> Seq<char> {
        self.detail@
    }
}

impl Clone for RemoteError {
    fn clone(&self) -> (copy: RemoteError)
        ensures
            copy@ == self@,
    {
        RemoteError { detail: self.detail.clone() }
    }
}

/// How a call to the server ended.
pub type ExecOutcome = Result<ExecResponse, RemoteError>;

/// The views of the answers in `outcomes`, where every one of them is an answer.
pub open spec fn answers(outcomes: Seq<ExecOutcome>) -> Seq<ExecResponseView> {
    Seq::new(outcomes.len(), |i: int| outcomes[i]->Ok_0@)
}

/// Copies the outcome of a call.
pub(crate) fn copy_outcome(outcome: &ExecOutcome) -> (copy: ExecOutcome)
    ensures
        match (*outcome, copy) {
            (Ok(a), Ok(b)) => a@ == b@,
            (Err(a), Err(b)) => a@ == b@,
            _ => false,
        },
{
    match outcome {
        Ok(response) => Ok(response.clone()),
        Err(error) => Err(error.clone()),
    }
}

} // verus!
