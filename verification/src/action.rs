//! The action table: which script belongs to which infrared code.

use vstd::prelude::*;
use crate::remote::{
    answers, copy_outcome, requests, ExecOutcome, ExecRequest, ExecRequestView, ExecResponse,
    ExecResponseView, RemoteError,
};
use crate::trace::{first_failure, first_failure_is_determined, is_first_failure};

verus! {

/// A named binding from a set of infrared codes to a script.
#[derive(Debug, PartialEq, Eq)]
pub struct Action {
    /// Label of the action; it only appears in messages.
    pub name: String,
    /// The codes that fire this action. Order and repetition carry no meaning.
    pub triggers: Vec<u64>,
    /// Source text of the script, handed to the server as it is.
    pub homescript: String,
}

/// What an [`Action`] holds, as mathematical values.
pub struct ActionView {
    pub name: Seq<char>,
    pub triggers: Seq<u64>,
    pub homescript: Seq<char>,
}

impl View for Action {
    type V = ActionView;

    open spec fn view(&self) -> ActionView {
        ActionView { name: self.name@, triggers: self.triggers@, homescript: self.homescript@ }
    }
}

impl Clone for Action {
    fn clone(&self) -> (copy: Action)
        ensures
            copy@ == self@,
    {
        Action {
            name: self.name.clone(),
            triggers: self.triggers.clone(),
            homescript: self.homescript.clone(),
        }
    }
}

/// The action that stands in a configuration until the operator writes one.
pub open spec fn default_action() -> ActionView {
    ActionView { name: "default"@, triggers: seq![101u64], homescript: "print('Homescript')"@ }
}

impl Default for Action {
    fn default() -> (action: Action)
        ensures
            action@ == default_action(),
    {
        let mut triggers: Vec<u64> = Vec::new();
        triggers.push(101);
        assert(triggers@ =~= seq![101u64]);
        Action {
            name: "default".to_owned(),
            triggers,
            homescript: "print('Homescript')".to_owned(),
        }
    }
}

/// The views of the actions of a table, in table order.
pub open spec fn table(actions: Seq<Action>) -> Seq<ActionView> {
    actions.map_values(|action: Action| action@)
}

/// Whether `action` fires on `code`: the code is one of its triggers.
pub open spec fn fires(action: ActionView, code: u64) -> bool {
    action.triggers.contains(code)
}

/// Whether position `i` of `table` holds the action that `code` selects: it
/// fires on the code, and no action before it does.
pub open spec fn is_first_match(table: Seq<ActionView>, code: u64, i: int) -> bool {
    &&& 0 <= i < table.len()
    &&& fires(table[i], code)
    &&& forall|j: int| 0 <= j < i ==> !fires(#[trigger] table[j], code)
}

/// The position of the action that `code` selects in `table`, if any action
/// fires on the code.
pub open spec fn first_match(table: Seq<ActionView>, code: u64) -> Option<int> {
    if exists|i: int| is_first_match(table, code, i) {
        Some(choose|i: int| is_first_match(table, code, i))
    } else {
        None
    }
}

/// A code selects at most one position of a table.
pub proof fn first_match_is_unique(table: Seq<ActionView>, code: u64, i: int, j: int)
    requires
        is_first_match(table, code, i),
        is_first_match(table, code, j),
    ensures
        i == j,
{
    if i < j {
        assert(!fires(table[i], code));
    } else if j < i {
        assert(!fires(table[j], code));
    }
}

/// Matching is a function of the table and the code: the result is nothing
/// exactly when no action fires on the code, and otherwise the one position
/// that holds the first action, in table order, whose triggers contain it.
pub proof fn first_match_is_determined(table: Seq<ActionView>, code: u64)
    ensures
        match first_match(table, code) {
            Some(i) => is_first_match(table, code, i) && forall|j: int|
                is_first_match(table, code, j) ==> j == i,
            None => forall|j: int| 0 <= j < table.len() ==> !fires(#[trigger] table[j], code),
        },
{
    match first_match(table, code) {
        Some(i) => {
            assert forall|j: int| is_first_match(table, code, j) implies j == i by {
                first_match_is_unique(table, code, i, j);
            }
        },
        None => {
            assert forall|j: int| 0 <= j < table.len() implies !fires(#[trigger] table[j], code) by {
                if fires(table[j], code) {
                    no_match_means_none_fires(table, code, j);
                }
            }
        },
    }
}

proof fn no_match_means_none_fires(table: Seq<ActionView>, code: u64, upto: int)
    requires
        0 <= upto < table.len(),
        fires(table[upto], code),
    ensures
        exists|i: int| is_first_match(table, code, i),
    decreases upto,
{
    if forall|j: int| 0 <= j < upto ==> !fires(#[trigger] table[j], code) {
        assert(is_first_match(table, code, upto));
    } else {
        let j = choose|j: int| 0 <= j < upto && fires(#[trigger] table[j], code);
        no_match_means_none_fires(table, code, j);
    }
}

impl Action {
    /// Tells whether this action fires on `code`.
    pub fn fires_on(&self, code: u64) -> (hit: bool)
        ensures
            hit == fires(self@, code),
    {
        let mut k: usize = 0;
        while k < self.triggers.len()
            invariant
                k <= self.triggers.len(),
                forall|j: int| 0 <= j < k ==> self.triggers@[j] != code,
            decreases self.triggers.len() - k,
        {
            if self.triggers[k] == code {
                return true;
            }
            k = k + 1;
        }
        false
    }
}

/// Looks `code` up in the action table.
///
/// Returns the first action, in table order, that has `code` among its
/// triggers, or nothing when no action has it.
pub fn match_code(actions: &[Action], code: u64) -> (found: Option<&Action>)
    ensures
        match first_match(table(actions@), code) {
            Some(i) => found == Some(&actions@[i]),
            None => found is None,
        },
{
    let ghost table = table(actions@);
    let mut i: usize = 0;
    while i < actions.len()
        invariant
            i <= actions.len(),
            table == self::table(actions@),
            forall|j: int| 0 <= j < i ==> !fires(#[trigger] table[j], code),
        decreases actions.len() - i,
    {
        if actions[i].fires_on(code) {
            proof {
                assert(is_first_match(table, code, i as int));
                first_match_is_determined(table, code);
            }
            return Some(&actions[i]);
        }
        i = i + 1;
    }
    proof {
        first_match_is_determined(table, code);
        if first_match(table, code) is Some {
            let m = first_match(table, code).unwrap();
            assert(fires(table[m], code));
        }
    }
    None
}

/// One entry of a lint report: what the server said of one action's script.
#[derive(Debug, PartialEq, Eq)]
pub struct ActionExecRes<'act> {
    /// The server's answer to the check of the script.
    pub result: ExecResponse,
    /// Name of the action.
    pub name: &'act str,
    /// Source text that was checked.
    pub code: &'act str,
}

/// What an [`ActionExecRes`] holds, as mathematical values.
pub struct ActionExecResView {
    pub result: ExecResponseView,
    pub name: Seq<char>,
    pub code: Seq<char>,
}

impl<'act> View for ActionExecRes<'act> {
    type V = ActionExecResView;

    open spec fn view(&self) -> ActionExecResView {
        ActionExecResView { result: self.result@, name: self.name@, code: self.code@ }
    }
}

/// The views of the entries of a lint report, in report order.
pub open spec fn report<'act>(results: Seq<ActionExecRes<'act>>) -> Seq<ActionExecResView> {
    results.map_values(|entry: ActionExecRes<'act>| entry@)
}

/// The request that checks the script of `action` without running it.
pub open spec fn lint_request(action: ActionView) -> ExecRequestView {
    ExecRequestView { script: action.homescript, validate_only: true }
}

/// The report entry of `action`, once the server has answered with `response`.
pub open spec fn lint_entry(action: ActionView, response: ExecResponseView) -> ActionExecResView {
    ActionExecResView { result: response, name: action.name, code: action.homescript }
}

/// The report entries of the first actions of `table`, one for each of
/// `responses`, in table order.
pub open spec fn lint_entries(
    table: Seq<ActionView>,
    responses: Seq<ExecResponseView>,
) -> Seq<ActionExecResView>
    recommends
        responses.len() <= table.len(),
{
    Seq::new(responses.len(), |i: int| lint_entry(table[i], responses[i]))
}

/// A lint sweep that waits for the server's answer to one request.
///
/// The sweep checks the script of every action of a table, one after the
/// other in table order. It holds the answers it has got so far; the request
/// it waits on is the one for the action right after them.
#[derive(Debug)]
pub struct LintSweep<'act> {
    actions: &'act [Action],
    results: Vec<ActionExecRes<'act>>,
}

/// What a lint sweep does next.
#[derive(Debug)]
pub enum LintStep<'act> {
    /// Send `request` to the server and hand its outcome to `sweep`.
    Ask { sweep: LintSweep<'act>, request: ExecRequest },
    /// Every script has been checked; `results` is the report.
    Done { results: Vec<ActionExecRes<'act>> },
    /// A call did not reach the server. The sweep is over without a report.
    Aborted { error: RemoteError },
}

spec fn entries_fit<'act>(actions: Seq<Action>, results: Seq<ActionExecRes<'act>>) -> bool {
    &&& results.len() <= actions.len()
    &&& forall|i: int|
        0 <= i < results.len() ==> (#[trigger] results[i])@.name == actions[i]@.name
            && results[i]@.code == actions[i]@.homescript
}

spec fn responses<'act>(results: Seq<ActionExecRes<'act>>) -> Seq<ExecResponseView> {
    results.map_values(|entry: ActionExecRes<'act>| entry@.result)
}

impl<'act> LintSweep<'act> {
    #[verifier::type_invariant]
    spec fn well_formed(self) -> bool {
        &&& self.results.len() < self.actions.len()
        &&& entries_fit(self.actions@, self.results@)
    }

    /// The table that is swept.
    pub closed spec fn table(self) -> Seq<ActionView> {
        table(self.actions@)
    }

    /// The answers that the server has given so far, in table order.
    pub closed spec fn answered(self) -> Seq<ExecResponseView> {
        responses(self.results@)
    }

    /// Starts a sweep over `actions`.
    ///
    /// The first step asks for the check of the first action's script; over an
    /// empty table the sweep is done at once, with an empty report.
    pub fn begin(actions: &'act [Action]) -> (step: LintStep<'act>)
        ensures
            step.follows(table(actions@), Seq::empty()),
    {
        let step = LintSweep::proceed(actions, Vec::new());
        assert(responses(Seq::<ActionExecRes<'act>>::empty()) =~= Seq::empty());
        step
    }

    /// Takes the outcome of the request that the sweep waits on.
    ///
    /// An answer of the server is recorded whether or not it reports success,
    /// and the sweep goes on to the next action. A call that failed ends the
    /// sweep: no further request is made.
    pub fn answer(self, outcome: ExecOutcome) -> (step: LintStep<'act>)
        ensures
            match outcome {
                Ok(response) => step.follows(self.table(), self.answered().push(response@)),
                Err(error) => step matches LintStep::Aborted { error: e } && e@ == error@,
            },
    {
        proof {
            use_type_invariant(&self);
        }
        match outcome {
            Err(error) => LintStep::Aborted { error },
            Ok(response) => {
                let actions = self.actions;
                let mut results = self.results;
                let ghost before = results@;
                let action = &actions[results.len()];
                results.push(
                    ActionExecRes {
                        result: response,
                        name: action.name.as_str(),
                        code: action.homescript.as_str(),
                    },
                );
                assert(responses(results@) =~= responses(before).push(response@));
                LintSweep::proceed(actions, results)
            },
        }
    }

    fn proceed(actions: &'act [Action], results: Vec<ActionExecRes<'act>>) -> (step: LintStep<
        'act,
    >)
        requires
            entries_fit(actions@, results@),
        ensures
            step.follows(table(actions@), responses(results@)),
    {
        if results.len() < actions.len() {
            let request = ExecRequest {
                script: actions[results.len()].homescript.clone(),
                validate_only: true,
            };
            LintStep::Ask { sweep: LintSweep { actions, results }, request }
        } else {
            assert(report(results@) =~= lint_entries(table(actions@), responses(results@)));
            LintStep::Done { results }
        }
    }
}

impl<'act> LintStep<'act> {
    /// Whether this is the step of a sweep over `table` that has got
    /// `responses` from the server: the request for the next action, in
    /// check-only mode, while an action is left, and then the report.
    pub open spec fn follows(self, table: Seq<ActionView>, responses: Seq<ExecResponseView>) -> bool {
        if responses.len() < table.len() {
            &&& self matches LintStep::Ask { sweep, request }
            &&& sweep.table() == table
            &&& sweep.answered() == responses
            &&& request@ == lint_request(table[responses.len() as int])
        } else {
            &&& self matches LintStep::Done { results }
            &&& report(results@) == lint_entries(table, responses)
        }
    }
}

/// What a lint sweep did against a server whose outcomes were given.
#[derive(Debug, PartialEq, Eq)]
pub struct LintRun<'act> {
    /// The requests that were sent to the server, in the order of sending.
    pub calls: Vec<ExecRequest>,
    /// How the sweep ended: with the report, or with the failure that aborted
    /// it. Nothing while the sweep still waits for an outcome.
    pub report: Option<Result<Vec<ActionExecRes<'act>>, RemoteError>>,
}

/// The requests that check the scripts of the first `count` actions of
/// `table`, in table order.
pub open spec fn lint_requests(table: Seq<ActionView>, count: int) -> Seq<ExecRequestView>
    recommends
        0 <= count <= table.len(),
{
    Seq::new(count as nat, |i: int| lint_request(table[i]))
}

/// Checks the script of every action against a server that gives `outcomes`
/// in turn, the first outcome to the first request.
///
/// The sweep sends one request per action, in table order and in check-only
/// mode, and pairs every answer with its action, whether or not the answer
/// reports success. The first failed call ends the sweep: its error is the
/// result, and no request follows it. Where `outcomes` ends before the sweep
/// does, the last request stays without an outcome and there is no result
/// yet. Outcomes beyond the ones that the sweep asks for are not looked at.
pub fn lint_actions<'act>(actions: &'act Vec<Action>, outcomes: &Vec<ExecOutcome>) -> (run: LintRun<
    'act,
>)
    ensures
        match first_failure(outcomes@) {
            Some(k) if k < actions.len() => {
                &&& requests(run.calls@) == lint_requests(table(actions@), k + 1)
                &&& run.report matches Some(Err(error))
                &&& error@ == outcomes@[k]->Err_0@
            },
            _ => if outcomes.len() >= actions.len() {
                &&& requests(run.calls@) == lint_requests(table(actions@), actions.len() as int)
                &&& run.report matches Some(Ok(results))
                &&& report(results@) == lint_entries(
                    table(actions@),
                    answers(outcomes@.take(actions.len() as int)),
                )
            } else {
                &&& requests(run.calls@) == lint_requests(table(actions@), outcomes.len() + 1)
                &&& run.report is None
            },
        },
{
    let ghost table = table(actions@);
    let mut calls: Vec<ExecRequest> = Vec::new();
    let mut step = LintSweep::begin(actions.as_slice());
    let mut i: usize = 0;
    proof {
        assert(answers(outcomes@.take(0)) =~= Seq::empty());
        assert(requests(calls@) =~= lint_requests(table, 0));
        first_failure_is_determined(outcomes@);
    }
    loop
        invariant
            table == self::table(actions@),
            i <= outcomes.len(),
            i <= actions.len(),
            forall|j: int| 0 <= j < i ==> (#[trigger] outcomes@[j]) is Ok,
            step.follows(table, answers(outcomes@.take(i as int))),
            requests(calls@) == lint_requests(table, i as int),
            match first_failure(outcomes@) {
                Some(k) => is_first_failure(outcomes@, k),
                None => forall|j: int| 0 <= j < outcomes.len() ==> (#[trigger] outcomes@[j]) is Ok,
            },
        decreases actions.len() - i,
    {
        match step {
            LintStep::Ask { sweep, request } => {
                let ghost before = calls@;
                calls.push(request);
                assert(requests(calls@) =~= lint_requests(table, i + 1)) by {
                    assert(requests(calls@) =~= requests(before).push(request@));
                }
                if i < outcomes.len() {
                    let next = sweep.answer(copy_outcome(&outcomes[i]));
                    match next {
                        LintStep::Aborted { error } => {
                            assert(is_first_failure(outcomes@, i as int));
                            return LintRun { calls, report: Some(Err(error)) };
                        },
                        _ => {
                            assert(answers(outcomes@.take(i + 1)) =~= answers(
                                outcomes@.take(i as int),
                            ).push(outcomes@[i as int]->Ok_0@));
                            step = next;
                            i = i + 1;
                        },
                    }
                } else {
                    return LintRun { calls, report: None };
                }
            },
            LintStep::Done { results } => {
                return LintRun { calls, report: Some(Ok(results)) };
            },
            LintStep::Aborted { error } => {
                return LintRun { calls, report: Some(Err(error)) };
            },
        }
    }
}

} // verus!
