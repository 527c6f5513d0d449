//! Turning what the infrared receiver reads into actions.
//!
//! Two procedures read the receiver. Discovery reads a fixed number of codes
//! and names the one that was read most often, so that the operator can bind
//! a button. The dispatch loop reads codes for as long as the receiver works
//! and starts one script execution for every code that an action fires on.

use std::collections::HashMap;
use vstd::prelude::*;
use vstd::string::*;
use crate::action::{first_match, match_code, table, Action, ActionView};
use crate::remote::{
    diagnostics_text, display_diagnostics, ExecOutcome, ExecRequest, ExecRequestView,
};
use crate::text::{
    decimal, decimal_string, messages, texts, texts_of_concat, Level, Message, MessageView, Sink,
};
use crate::trace::{first_failure, first_failure_is_determined, is_first_failure};

verus! {

broadcast use vstd::std_specs::hash::group_hash_axioms;

/// How often `code` occurs in `codes`.
pub open spec fn occurrences(codes: Seq<u64>, code: u64) -> nat
    decreases codes.len(),
{
    if codes.len() == 0 {
        0
    } else {
        occurrences(codes.drop_last(), code) + if codes.last() == code {
            1nat
        } else {
            0nat
        }
    }
}

/// Whether position `i` of `codes` holds the code that was read most often,
/// the one that was read first among those that were read equally often:
/// every code before it occurs less often, and no code occurs more often.
pub open spec fn is_mode_at(codes: Seq<u64>, i: int) -> bool {
    &&& 0 <= i < codes.len()
    &&& forall|j: int|
        0 <= j < i ==> occurrences(codes, #[trigger] codes[j]) < occurrences(codes, codes[i])
    &&& forall|j: int|
        i <= j < codes.len() ==> occurrences(codes, #[trigger] codes[j]) <= occurrences(
            codes,
            codes[i],
        )
}

/// The code that occurs most often in `codes`; among several that occur
/// equally often, the one that occurs first. Nothing for no codes.
pub open spec fn mode(codes: Seq<u64>) -> Option<u64> {
    if exists|i: int| is_mode_at(codes, i) {
        Some(codes[choose|i: int| is_mode_at(codes, i)])
    } else {
        None
    }
}

/// At most one position of a sequence of codes holds its mode.
pub proof fn mode_is_unique(codes: Seq<u64>, i: int, j: int)
    requires
        is_mode_at(codes, i),
        is_mode_at(codes, j),
    ensures
        i == j,
{
    if i < j {
        assert(occurrences(codes, codes[i]) < occurrences(codes, codes[j]));
        assert(occurrences(codes, codes[j]) <= occurrences(codes, codes[i]));
    } else if j < i {
        assert(occurrences(codes, codes[j]) < occurrences(codes, codes[i]));
        assert(occurrences(codes, codes[i]) <= occurrences(codes, codes[j]));
    }
}

/// The mode is a function of the codes: there is none exactly when nothing
/// was read. Otherwise it is one of the codes, no code occurs more often,
/// and it was read before every other code that occurs as often.
pub proof fn mode_is_determined(codes: Seq<u64>)
    ensures
        mode(codes) is None <==> codes.len() == 0,
        mode(codes) matches Some(winner) ==> {
            &&& codes.contains(winner)
            &&& forall|code: u64| occurrences(codes, code) <= occurrences(codes, winner)
            &&& forall|i: int|
                0 <= i < codes.len() && occurrences(codes, #[trigger] codes[i]) == occurrences(
                    codes,
                    winner,
                ) ==> exists|j: int| 0 <= j <= i && #[trigger] codes[j] == winner
        },
{
    if codes.len() > 0 {
        let best = leading_mode(codes, codes.len() as int);
        assert(is_mode_at(codes, best));
    }
    if let Some(winner) = mode(codes) {
        let at = choose|i: int| is_mode_at(codes, i);
        assert(codes[at] == winner);
        assert forall|code: u64| occurrences(codes, code) <= occurrences(codes, winner) by {
            occurrences_bounds(codes, code);
            if occurrences(codes, code) > 0 {
                let j = choose|j: int| 0 <= j < codes.len() && codes[j] == code;
                assert(occurrences(codes, codes[j]) <= occurrences(codes, winner));
            }
        }
        assert forall|i: int|
            0 <= i < codes.len() && occurrences(codes, #[trigger] codes[i]) == occurrences(
                codes,
                winner,
            ) implies exists|j: int| 0 <= j <= i && #[trigger] codes[j] == winner by {
            if i < at {
                assert(occurrences(codes, codes[i]) < occurrences(codes, codes[at]));
            }
            assert(0 <= at <= i && codes[at] == winner);
        }
    }
}

/// The position of the mode among the first `upto` codes, measured by how
/// often each code occurs in all of `codes`.
proof fn leading_mode(codes: Seq<u64>, upto: int) -> (best: int)
    requires
        0 < upto <= codes.len(),
    ensures
        0 <= best < upto,
        forall|j: int|
            0 <= j < best ==> occurrences(codes, #[trigger] codes[j]) < occurrences(
                codes,
                codes[best],
            ),
        forall|j: int|
            best <= j < upto ==> occurrences(codes, #[trigger] codes[j]) <= occurrences(
                codes,
                codes[best],
            ),
    decreases upto,
{
    if upto == 1 {
        0
    } else {
        let before = leading_mode(codes, upto - 1);
        if occurrences(codes, codes[upto - 1]) > occurrences(codes, codes[before]) {
            upto - 1
        } else {
            before
        }
    }
}

/// Appending a code adds one occurrence of that code and of no other.
pub proof fn occurrences_of_push(codes: Seq<u64>, last: u64, code: u64)
    ensures
        occurrences(codes.push(last), code) == occurrences(codes, code) + if last == code {
            1nat
        } else {
            0nat
        },
{
    assert(codes.push(last).drop_last() =~= codes);
}

/// A code occurs at most as often as there are codes, and at least once
/// where it stands at some position.
pub proof fn occurrences_bounds(codes: Seq<u64>, code: u64)
    ensures
        occurrences(codes, code) <= codes.len(),
        codes.contains(code) <==> occurrences(codes, code) > 0,
    decreases codes.len(),
{
    if codes.len() > 0 {
        occurrences_bounds(codes.drop_last(), code);
        if codes.contains(code) {
            let i = choose|i: int| 0 <= i < codes.len() && codes[i] == code;
            if i < codes.len() - 1 {
                assert(codes.drop_last()[i] == code);
            }
        }
        if occurrences(codes, code) > 0 && codes.last() != code {
            let i = choose|i: int| 0 <= i < codes.drop_last().len() && codes.drop_last()[i] == code;
            assert(codes[i] == code);
        }
    }
}

/// Counts how often each code occurs.
fn tally(codes: &[u64]) -> (counts: HashMap<u64, usize>)
    ensures
        forall|code: u64| counts@.contains_key(code) <==> codes@.contains(code),
        forall|code: u64| #[trigger]
            counts@.contains_key(code) ==> counts@[code] == occurrences(codes@, code),
{
    let mut counts: HashMap<u64, usize> = HashMap::new();
    let mut i: usize = 0;
    while i < codes.len()
        invariant
            i <= codes.len(),
            forall|code: u64|
                counts@.contains_key(code) <==> occurrences(codes@.take(i as int), code) > 0,
            forall|code: u64| #[trigger]
                counts@.contains_key(code) ==> counts@[code] == occurrences(
                    codes@.take(i as int),
                    code,
                ),
        decreases codes.len() - i,
    {
        let code = codes[i];
        let ghost seen = codes@.take(i as int);
        proof {
            assert(codes@.take(i + 1) =~= seen.push(code));
            occurrences_bounds(seen, code);
            assert forall|other: u64|
                occurrences(codes@.take(i + 1), other) == occurrences(seen, other) + if code
                    == other {
                    1nat
                } else {
                    0nat
                } by {
                occurrences_of_push(seen, code, other);
            }
        }
        let count: usize = match counts.get(&code) {
            Some(count) => *count,
            None => 0,
        };
        counts.insert(code, count + 1);
        i = i + 1;
    }
    proof {
        assert(codes@.take(codes.len() as int) =~= codes@);
        assert forall|code: u64| counts@.contains_key(code) <==> codes@.contains(code) by {
            occurrences_bounds(codes@, code);
        }
    }
    counts
}

/// Finds the code that occurs most often in `codes`.
///
/// Among several codes that occur equally often, the one that was read first
/// wins. There is no such code where nothing was read.
pub fn most_frequent(codes: &[u64]) -> (winner: Option<u64>)
    ensures
        winner == mode(codes@),
        winner is None <==> codes.len() == 0,
{
    if codes.len() == 0 {
        return None;
    }
    let counts = tally(codes);
    let mut best: usize = 0;
    let mut best_count: usize = 0;
    let mut i: usize = 0;
    while i < codes.len()
        invariant
            i <= codes.len(),
            codes.len() > 0,
            forall|code: u64| counts@.contains_key(code) <==> codes@.contains(code),
            forall|code: u64| #[trigger]
                counts@.contains_key(code) ==> counts@[code] == occurrences(codes@, code),
            i == 0 ==> best == 0 && best_count == 0,
            i > 0 ==> best < i && best_count == occurrences(codes@, codes@[best as int]),
            forall|j: int|
                0 <= j < best ==> occurrences(codes@, #[trigger] codes@[j]) < best_count,
            forall|j: int|
                best <= j < i ==> occurrences(codes@, #[trigger] codes@[j]) <= best_count,
        decreases codes.len() - i,
    {
        let code = codes[i];
        assert(codes@.contains(code));
        let count: usize = match counts.get(&code) {
            Some(count) => *count,
            None => 0,
        };
        proof {
            occurrences_bounds(codes@, code);
        }
        if count > best_count {
            best = i;
            best_count = count;
        }
        i = i + 1;
    }
    proof {
        assert(is_mode_at(codes@, best as int));
        assert forall|j: int| is_mode_at(codes@, j) implies j == best by {
            mode_is_unique(codes@, best as int, j);
        }
    }
    Some(codes[best])
}

/// A read of the receiver that failed.
#[derive(Debug, PartialEq, Eq)]
pub struct ScanError {
    /// Description of the failure, for the operator.
    pub detail: String,
}

impl View for ScanError {
    type V = Seq<char>;

    open spec fn view(&self) -> Seq<char> {
        self.detail@
    }
}

impl Clone for ScanError {
    fn clone(&self) -> (copy: ScanError)
        ensures
            copy@ == self@,
    {
        ScanError { detail: self.detail.clone() }
    }
}

/// How a read of the receiver ended: with the code of a button, or not.
pub type ScanOutcome = Result<u64, ScanError>;

/// The codes in `reads`, where every one of them is a code.
pub open spec fn codes(reads: Seq<ScanOutcome>) -> Seq<u64> {
    Seq::new(reads.len(), |i: int| reads[i]->Ok_0)
}

/// Copies the outcome of a read.
fn copy_read(read: &ScanOutcome) -> (copy: ScanOutcome)
    ensures
        match (*read, copy) {
            (Ok(a), Ok(b)) => a == b,
            (Err(a), Err(b)) => a@ == b@,
            _ => false,
        },
{
    match read {
        Ok(code) => Ok(*code),
        Err(error) => Err(error.clone()),
    }
}

/// The number of codes that one discovery reads.
pub const DISCOVERY_WINDOW: usize = 10;

/// What discovery prints before the first read.
pub const DISCOVERY_BANNER: &'static str =
    "Press the desired button to get started.\nHint: the most likely correct code will be selected automatically.";

/// What discovery prints after read number `step`, counted from zero, has
/// given `code`.
pub open spec fn progress_line(step: nat, code: u64) -> Seq<char> {
    "["@ + decimal(step) + "] => "@ + decimal(code as nat)
}

/// What discovery prints at its end, when `code` is the result.
pub open spec fn result_lines(code: u64) -> Seq<char> {
    "=== Result from inputs ===\n"@ + decimal(code as nat)
}

/// The progress lines of the first `count` reads of `codes`.
pub open spec fn progress_lines(codes: Seq<u64>, count: int) -> Seq<Seq<char>>
    recommends
        0 <= count <= codes.len(),
{
    Seq::new(count as nat, |i: int| progress_line(i as nat, codes[i]))
}

fn progress(step: usize, code: u64) -> (line: String)
    ensures
        line@ == progress_line(step as nat, code),
{
    let mut line = "[".to_owned();
    line.append(decimal_string(step as u64).as_str());
    line.append("] => ");
    line.append(decimal_string(code).as_str());
    line
}

fn result_text(code: u64) -> (text: String)
    ensures
        text@ == result_lines(code),
{
    let mut text = "=== Result from inputs ===\n".to_owned();
    text.append(decimal_string(code).as_str());
    text
}

/// A discovery that waits for the next read of the receiver.
///
/// It holds the codes that were read so far, fewer than the window.
#[derive(Debug)]
pub struct Discovery {
    samples: Vec<u64>,
}

/// What a discovery does next.
#[derive(Debug)]
pub enum DiscoveryStep {
    /// Print `lines`, read the receiver, and hand the outcome to `discovery`.
    Scan { discovery: Discovery, lines: Vec<String> },
    /// Print `lines`. The window is full, and `code` is the result.
    Done { lines: Vec<String>, code: u64 },
    /// A read failed. The discovery is over, and what was read is dropped.
    Failed { error: ScanError },
}

impl Discovery {
    #[verifier::type_invariant]
    spec fn well_formed(self) -> bool {
        self.samples.len() < DISCOVERY_WINDOW
    }

    /// The codes that were read so far, in the order of reading.
    pub closed spec fn samples(self) -> Seq<u64> {
        self.samples@
    }

    /// Starts a discovery: nothing is read yet, and the banner is to be
    /// printed before the first read.
    pub fn begin() -> (step: DiscoveryStep)
        ensures
            step matches DiscoveryStep::Scan { discovery, lines },
            step->Scan_discovery.samples() == Seq::<u64>::empty(),
            texts(step->Scan_lines@) == seq![DISCOVERY_BANNER@],
    {
        let mut lines: Vec<String> = Vec::new();
        lines.push(DISCOVERY_BANNER.to_owned());
        assert(texts(lines@) =~= seq![DISCOVERY_BANNER@]);
        DiscoveryStep::Scan { discovery: Discovery { samples: Vec::new() }, lines }
    }

    /// Takes the outcome of the read that the discovery waits on.
    ///
    /// A code is added to the samples and its progress line is printed. With
    /// the code that fills the window the discovery ends, and its result is
    /// the mode of the samples. A failed read ends the discovery at once with
    /// that failure.
    pub fn observe(self, read: ScanOutcome) -> (step: DiscoveryStep)
        ensures
            match read {
                Ok(code) => step.follows(self.samples().push(code)),
                Err(error) => step matches DiscoveryStep::Failed { error: e } && e@ == error@,
            },
    {
        proof {
            use_type_invariant(&self);
        }
        match read {
            Err(error) => DiscoveryStep::Failed { error },
            Ok(code) => {
                let mut samples = self.samples;
                let mut lines: Vec<String> = Vec::new();
                lines.push(progress(samples.len(), code));
                samples.push(code);
                if samples.len() < DISCOVERY_WINDOW {
                    assert(texts(lines@) =~= seq![
                        progress_line((samples@.len() - 1) as nat, samples@.last()),
                    ]);
                    DiscoveryStep::Scan { discovery: Discovery { samples }, lines }
                } else {
                    let winner = most_frequent(samples.as_slice());
                    let code = winner.unwrap();
                    lines.push(result_text(code));
                    assert(texts(lines@) =~= seq![
                        progress_line((samples@.len() - 1) as nat, samples@.last()),
                        result_lines(code),
                    ]);
                    DiscoveryStep::Done { lines, code }
                }
            },
        }
    }
}

impl DiscoveryStep {
    /// Whether this is the step of a discovery right after the last of
    /// `samples` was read: the progress line of that read is printed, and
    /// either the next read follows or, with a full window, the result.
    pub open spec fn follows(self, samples: Seq<u64>) -> bool
        recommends
            0 < samples.len() <= DISCOVERY_WINDOW,
    {
        let line = progress_line((samples.len() - 1) as nat, samples.last());
        if samples.len() < DISCOVERY_WINDOW {
            &&& self matches DiscoveryStep::Scan { discovery, lines }
            &&& discovery.samples() == samples
            &&& texts(lines@) == seq![line]
        } else {
            &&& self matches DiscoveryStep::Done { lines, code }
            &&& Some(code) == mode(samples)
            &&& texts(lines@) == seq![line, result_lines(code)]
        }
    }
}

/// What a discovery did against a receiver whose reads were given.
#[derive(Debug, PartialEq, Eq)]
pub struct DiscoverRun {
    /// What was printed, in the order of printing.
    pub lines: Vec<String>,
    /// How the discovery ended: with its result, or with the failure of a
    /// read. Nothing while the discovery still waits for a read.
    pub outcome: Option<Result<u64, ScanError>>,
}

/// Runs a discovery against a receiver that gives `reads` in turn.
///
/// The discovery prints its banner, then reads a window of ten codes and
/// prints a progress line after each. With the tenth code it prints and
/// returns the mode of the window: the code that was read most often, the
/// first-read one among equals. The first failed read within the window ends
/// the discovery with that failure; no mode is computed of what was read
/// before. Where `reads` ends before the window is full, there is no result
/// yet. Reads beyond the window are not looked at.
pub fn start_discover(reads: &Vec<ScanOutcome>) -> (run: DiscoverRun)
    ensures
        match first_failure(reads@) {
            Some(k) if k < DISCOVERY_WINDOW => {
                &&& texts(run.lines@) == seq![DISCOVERY_BANNER@] + progress_lines(codes(reads@), k)
                &&& run.outcome matches Some(Err(error))
                &&& error@ == reads@[k]->Err_0@
            },
            _ => if reads.len() >= DISCOVERY_WINDOW {
                let window = codes(reads@.take(DISCOVERY_WINDOW as int));
                &&& run.outcome matches Some(Ok(code))
                &&& Some(code) == mode(window)
                &&& texts(run.lines@) == seq![DISCOVERY_BANNER@] + progress_lines(
                    window,
                    DISCOVERY_WINDOW as int,
                ) + seq![result_lines(code)]
            } else {
                &&& texts(run.lines@) == seq![DISCOVERY_BANNER@] + progress_lines(
                    codes(reads@),
                    reads.len() as int,
                )
                &&& run.outcome is None
            },
        },
{
    let mut lines: Vec<String> = Vec::new();
    let mut step = Discovery::begin();
    let mut i: usize = 0;
    proof {
        first_failure_is_determined(reads@);
        assert(codes(reads@.take(0)) =~= Seq::empty());
        assert(texts(lines@ + step->Scan_lines@) =~= seq![DISCOVERY_BANNER@] + progress_lines(
            codes(reads@),
            0,
        ));
    }
    loop
        invariant
            i <= reads.len(),
            i < DISCOVERY_WINDOW,
            forall|j: int| 0 <= j < i ==> (#[trigger] reads@[j]) is Ok,
            step matches DiscoveryStep::Scan { discovery, lines: pending },
            step->Scan_discovery.samples() == codes(reads@.take(i as int)),
            texts(lines@ + step->Scan_lines@) == seq![DISCOVERY_BANNER@] + progress_lines(
                codes(reads@),
                i as int,
            ),
            match first_failure(reads@) {
                Some(k) => is_first_failure(reads@, k),
                None => forall|j: int| 0 <= j < reads.len() ==> (#[trigger] reads@[j]) is Ok,
            },
        decreases DISCOVERY_WINDOW - i,
    {
        match step {
            DiscoveryStep::Scan { discovery, lines: mut pending } => {
                lines.append(&mut pending);
                if i >= reads.len() {
                    return DiscoverRun { lines, outcome: None };
                }
                let ghost seen = codes(reads@.take(i as int));
                let ghost printed = lines@;
                let ghost shown = seq![DISCOVERY_BANNER@] + progress_lines(
                    codes(reads@),
                    i as int,
                );
                assert(texts(printed) == shown);
                let next = discovery.observe(copy_read(&reads[i]));
                proof {
                    if reads@[i as int] is Ok {
                        let code = reads@[i as int]->Ok_0;
                        assert(seen.len() == i);
                        assert(codes(reads@.take(i + 1)) =~= seen.push(code));
                        assert(seen.push(code).last() == code);
                        assert(progress_lines(codes(reads@), i + 1) =~= progress_lines(
                            codes(reads@),
                            i as int,
                        ).push(progress_line(i as nat, code)));
                    }
                }
                match next {
                    DiscoveryStep::Failed { error } => {
                        assert(is_first_failure(reads@, i as int));
                        return DiscoverRun { lines, outcome: Some(Err(error)) };
                    },
                    DiscoveryStep::Done { lines: mut last, code } => {
                        let ghost window = codes(reads@.take(DISCOVERY_WINDOW as int));
                        let ghost closing = last@;
                        lines.append(&mut last);
                        proof {
                            assert(i + 1 == DISCOVERY_WINDOW);
                            texts_of_concat(printed, closing);
                            assert(progress_lines(window, DISCOVERY_WINDOW as int)
                                =~= progress_lines(codes(reads@), i + 1));
                            assert(texts(lines@) =~= seq![DISCOVERY_BANNER@] + progress_lines(
                                window,
                                DISCOVERY_WINDOW as int,
                            ) + seq![result_lines(code)]);
                        }
                        return DiscoverRun { lines, outcome: Some(Ok(code)) };
                    },
                    DiscoveryStep::Scan { .. } => {
                        proof {
                            texts_of_concat(printed, next->Scan_lines@);
                            assert(texts(lines@ + next->Scan_lines@) =~= seq![DISCOVERY_BANNER@]
                                + progress_lines(codes(reads@), i + 1));
                        }
                        step = next;
                        i = i + 1;
                    },
                }
            },
            _ => {
                return DiscoverRun { lines, outcome: None };
            },
        }
    }
}

/// A script execution that the dispatch loop starts and does not wait for.
#[derive(Debug, PartialEq, Eq)]
pub struct Execution {
    /// A copy of the action that fired; it belongs to the execution alone.
    pub action: Action,
    /// What is asked of the server.
    pub request: ExecRequest,
}

/// What an [`Execution`] holds, as mathematical values.
pub struct ExecutionView {
    pub action: ActionView,
    pub request: ExecRequestView,
}

impl View for Execution {
    type V = ExecutionView;

    open spec fn view(&self) -> ExecutionView {
        ExecutionView { action: self.action@, request: self.request@ }
    }
}

/// The views of a sequence of executions, in order.
pub open spec fn executions(list: Seq<Execution>) -> Seq<ExecutionView> {
    list.map_values(|execution: Execution| execution@)
}

/// The execution that a press on a button of `action` starts: the script of
/// the action, unchanged, is run and not only checked.
pub open spec fn execution(action: ActionView) -> ExecutionView {
    ExecutionView {
        action,
        request: ExecRequestView { script: action.homescript, validate_only: false },
    }
}

/// The executions that the dispatch loop starts while it reads `codes`, in
/// the order of the reads: one for every code that an action fires on, for the
/// first such action of the table, and none for any other code.
pub open spec fn dispatched(table: Seq<ActionView>, codes: Seq<u64>) -> Seq<ExecutionView>
    decreases codes.len(),
{
    if codes.len() == 0 {
        Seq::empty()
    } else {
        let before = dispatched(table, codes.drop_last());
        match first_match(table, codes.last()) {
            Some(i) => before.push(execution(table[i])),
            None => before,
        }
    }
}

/// A read starts at most one execution.
pub proof fn at_most_one_execution_per_read(table: Seq<ActionView>, codes: Seq<u64>)
    ensures
        dispatched(table, codes).len() <= codes.len(),
    decreases codes.len(),
{
    if codes.len() > 0 {
        at_most_one_execution_per_read(table, codes.drop_last());
    }
}

/// Presses are never merged: where every one of `codes` selects the action
/// at position `a`, the loop starts one execution of that action for each of
/// them, however many there are and however fast they come.
pub proof fn no_coalescing(table: Seq<ActionView>, codes: Seq<u64>, a: int)
    requires
        forall|i: int| 0 <= i < codes.len() ==> first_match(table, #[trigger] codes[i]) == Some(a),
    ensures
        dispatched(table, codes) == Seq::new(codes.len(), |i: int| execution(table[a])),
    decreases codes.len(),
{
    if codes.len() > 0 {
        let front = codes.drop_last();
        assert forall|i: int| 0 <= i < front.len() implies first_match(table, #[trigger] front[i])
            == Some(a) by {
            assert(front[i] == codes[i]);
        }
        no_coalescing(table, front, a);
        assert(first_match(table, codes.last()) == Some(a)) by {
            assert(codes.last() == codes[codes.len() - 1]);
        }
    }
    assert(dispatched(table, codes) =~= Seq::new(codes.len(), |i: int| execution(table[a])));
}

/// Reads are handled strictly in the order of their arrival: what the loop
/// starts over two runs of codes is what it starts over the first, followed
/// by what it starts over the second.
pub proof fn dispatch_keeps_order(table: Seq<ActionView>, first: Seq<u64>, second: Seq<u64>)
    ensures
        dispatched(table, first + second) == dispatched(table, first) + dispatched(table, second),
    decreases second.len(),
{
    if second.len() == 0 {
        assert(first + second =~= first);
        assert(dispatched(table, first) + dispatched(table, second) =~= dispatched(table, first));
    } else {
        assert((first + second).drop_last() =~= first + second.drop_last());
        assert((first + second).last() == second.last());
        dispatch_keeps_order(table, first, second.drop_last());
        assert(dispatched(table, first + second) =~= dispatched(table, first) + dispatched(
            table,
            second,
        ));
    }
}

/// What the dispatch loop does with one read.
#[derive(Debug, PartialEq, Eq)]
pub enum ScanStep {
    /// Start `execution` without waiting for it, then read again.
    Spawn { execution: Execution },
    /// No action fires on the code: read again.
    Idle,
    /// The read failed: the loop ends with `error`.
    Stop { error: ScanError },
}

/// Whether `step` is what the dispatch loop over `table` does with `read`.
pub open spec fn step_follows(step: ScanStep, table: Seq<ActionView>, read: ScanOutcome) -> bool {
    match read {
        Ok(code) => match first_match(table, code) {
            Some(i) => step matches ScanStep::Spawn { execution: started } && started@
                == execution(table[i]),
            None => step is Idle,
        },
        Err(error) => step matches ScanStep::Stop { error: e } && e@ == error@,
    }
}

/// Decides what the dispatch loop does with one read of the receiver.
///
/// A code is looked up in the action table once. For the action it selects,
/// an execution of the action's script is to be started, with a copy of the
/// action; for a code that selects none, nothing is done. A failed read ends
/// the loop.
pub fn dispatch(actions: &[Action], read: ScanOutcome) -> (step: ScanStep)
    ensures
        step_follows(step, table(actions@), read),
{
    match read {
        Err(error) => ScanStep::Stop { error },
        Ok(code) => match match_code(actions, code) {
            Some(action) => {
                let request = ExecRequest { script: action.homescript.clone(), validate_only: false };
                ScanStep::Spawn { execution: Execution { action: action.clone(), request } }
            },
            None => ScanStep::Idle,
        },
    }
}

/// What the dispatch loop did against a receiver whose reads were given.
#[derive(Debug, PartialEq, Eq)]
pub struct ScanRun {
    /// The executions that were started, in the order of the reads.
    pub spawned: Vec<Execution>,
    /// The failed read that ended the loop. Nothing while the loop still
    /// waits for a read.
    pub failure: Option<ScanError>,
}

/// Runs the dispatch loop against a receiver that gives `reads` in turn.
///
/// Every code is handled as [`dispatch`] says, in the order of the reads.
/// The loop ends only with the first failed read; reads after it are not
/// looked at. Where no read fails, the loop has handled every code and waits
/// for the next.
pub fn start_scan(actions: &[Action], reads: &Vec<ScanOutcome>) -> (run: ScanRun)
    ensures
        match first_failure(reads@) {
            Some(k) => {
                &&& executions(run.spawned@) == dispatched(
                    table(actions@),
                    codes(reads@.take(k)),
                )
                &&& run.failure matches Some(error)
                &&& error@ == reads@[k]->Err_0@
            },
            None => {
                &&& executions(run.spawned@) == dispatched(table(actions@), codes(reads@))
                &&& run.failure is None
            },
        },
{
    let ghost table = table(actions@);
    let mut spawned: Vec<Execution> = Vec::new();
    let mut i: usize = 0;
    proof {
        first_failure_is_determined(reads@);
        assert(codes(reads@.take(0)) =~= Seq::empty());
        assert(executions(spawned@) =~= dispatched(table, Seq::empty()));
    }
    while i < reads.len()
        invariant
            table == crate::action::table(actions@),
            i <= reads.len(),
            forall|j: int| 0 <= j < i ==> (#[trigger] reads@[j]) is Ok,
            executions(spawned@) == dispatched(table, codes(reads@.take(i as int))),
            match first_failure(reads@) {
                Some(k) => is_first_failure(reads@, k),
                None => forall|j: int| 0 <= j < reads.len() ==> (#[trigger] reads@[j]) is Ok,
            },
        decreases reads.len() - i,
    {
        let ghost seen = codes(reads@.take(i as int));
        let ghost started = spawned@;
        proof {
            if reads@[i as int] is Ok {
                let code = reads@[i as int]->Ok_0;
                assert(codes(reads@.take(i + 1)) =~= seen.push(code));
                assert(seen.push(code).drop_last() =~= seen);
            }
        }
        match dispatch(actions, copy_read(&reads[i])) {
            ScanStep::Stop { error } => {
                assert(is_first_failure(reads@, i as int));
                return ScanRun { spawned, failure: Some(error) };
            },
            ScanStep::Spawn { execution } => {
                spawned.push(execution);
                assert(executions(spawned@) =~= executions(started).push(execution@));
            },
            ScanStep::Idle => {},
        }
        i = i + 1;
    }
    proof {
        assert(reads@.take(reads.len() as int) =~= reads@);
    }
    ScanRun { spawned, failure: None }
}

/// What is reported of an execution that ended with `outcome`.
///
/// A script that ran well is noted at debug level, together with what it
/// printed. A script that failed is reported at error level, and its
/// diagnostics go to standard error, one per line. A call that did not reach
/// the server is reported at error level.
pub open spec fn execution_report(action: ActionView, outcome: ExecOutcome) -> Seq<MessageView> {
    match outcome {
        Ok(response) => if response@.success {
            seq![
                MessageView {
                    sink: Sink::Log(Level::Debug),
                    text: "Successfully executed Homescript of action@"@ + action.name + ": "@
                        + response@.output,
                },
            ]
        } else {
            seq![
                MessageView {
                    sink: Sink::Log(Level::Error),
                    text: "HMS execution: action@"@ + action.name + " failed"@,
                },
                MessageView { sink: Sink::Stderr, text: diagnostics_text(response@.errors) },
            ]
        },
        Err(error) => seq![
            MessageView {
                sink: Sink::Log(Level::Error),
                text: "Could not execute HMS code: Smarthome error "@ + error@,
            },
        ],
    }
}

/// Reports how the execution of `action`'s script ended.
pub fn handle_action(action: &Action, outcome: &ExecOutcome) -> (report: Vec<Message>)
    ensures
        messages(report@) == execution_report(action@, *outcome),
{
    let mut report: Vec<Message> = Vec::new();
    match outcome {
        Ok(response) => {
            if response.success {
                let mut text = "Successfully executed Homescript of action@".to_owned();
                text.append(action.name.as_str());
                text.append(": ");
                text.append(response.output.as_str());
                report.push(Message { sink: Sink::Log(Level::Debug), text });
            } else {
                let mut text = "HMS execution: action@".to_owned();
                text.append(action.name.as_str());
                text.append(" failed");
                report.push(Message { sink: Sink::Log(Level::Error), text });
                report.push(
                    Message { sink: Sink::Stderr, text: display_diagnostics(&response.errors) },
                );
            }
        },
        Err(error) => {
            let mut text = "Could not execute HMS code: Smarthome error ".to_owned();
            text.append(error.detail.as_str());
            report.push(Message { sink: Sink::Log(Level::Error), text });
        },
    }
    assert(messages(report@) =~= execution_report(action@, *outcome));
    report
}

} // verus!
