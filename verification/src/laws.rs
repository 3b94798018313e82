//! What holds of every run: the iteration budget, the retry after a failed
//! validation, the finish slot, and the log that only grows.

use vstd::prelude::*;
use crate::agent::{
    chat_begun, decoded, executed, model_failed, next_turn, noted, rendered, rendered_parts,
    replied, replied_with, retry, run_begun, schema_feedback, schema_problem, seen_task,
    text_decoded, validated, ActionView, AgentView, Mode, OriginView, OutputView, StepView,
};
use crate::error::ErrorView;
use crate::events::EventView;
use crate::json::{py_of_json, JsonTree};
use crate::message::{turn, Role};
use crate::parser::finish_block;
use crate::schema::{schema_report, IssueView};
use crate::prompt::FINISH_MARKER;
use crate::text::{contains, lemma_occurrence_is_found};
use crate::value::{formatted, joined, plain, PyTree};

verus! {

/// What a caller reports to a loop that waits.
pub enum Report {
    /// The model responded with this text.
    Reply(Seq<char>),
    /// The model call failed with this message.
    ModelFailure(Seq<char>),
    /// The code was executed, with this outcome, and the finish capability
    /// stored this value.
    Execution(Result<OutputView, Seq<char>>, Option<PyTree>),
    /// The validator found these issues.
    Findings(Seq<IssueView>),
    /// The candidate was decoded, or failed to decode with this message.
    Decoding(Result<(), Seq<char>>),
    /// The plain text was decoded, or failed to decode with this message.
    TextDecoding(Result<(), Seq<char>>),
}

/// The report is the one that the agent waits for.
pub open spec fn fits(a: AgentView, r: Report) -> bool {
    match r {
        Report::Reply(_) => a.pending is Model,
        Report::ModelFailure(_) => a.pending is Model,
        Report::Execution(_, _) => a.pending is Execution,
        Report::Findings(_) => a.pending is Validation,
        Report::Decoding(_) => a.pending is Decode,
        Report::TextDecoding(_) => a.pending is TextDecode,
    }
}

/// The step that a report leads to.
pub open spec fn reported(a: AgentView, r: Report) -> (AgentView, StepView) {
    match r {
        Report::Reply(text) => noted(replied(a, text)),
        Report::ModelFailure(message) => noted(model_failed(a, message)),
        Report::Execution(outcome, captured) => noted(
            executed(a, a.pending->Execution_code, outcome, captured),
        ),
        Report::Findings(issues) => noted(
            validated(a, a.pending->Validation_candidate, a.pending->Validation_origin, issues),
        ),
        Report::Decoding(result) => noted(
            decoded(a, a.pending->Decode_candidate, a.pending->Decode_origin, result),
        ),
        Report::TextDecoding(result) => noted(text_decoded(a, result)),
    }
}

/// The model calls that a step asks for: one or none.
pub open spec fn calls(step: StepView) -> nat {
    if step.action is CallModel {
        1
    } else {
        0
    }
}

/// The model calls that the loop asks for while the caller makes these
/// reports, one after the other, for as long as each is the one that the
/// agent waits for.
pub open spec fn calls_in(a: AgentView, reports: Seq<Report>) -> nat
    decreases reports.len(),
{
    if reports.len() == 0 || !fits(a, reports[0]) {
        0
    } else {
        let next = reported(a, reports[0]);
        calls(next.1) + calls_in(next.0, reports.drop_first())
    }
}

/// The agent after these reports, made one after the other for as long as
/// each is the one that the agent waits for.
pub open spec fn after_reports(a: AgentView, reports: Seq<Report>) -> AgentView
    decreases reports.len(),
{
    if reports.len() == 0 || !fits(a, reports[0]) {
        a
    } else {
        after_reports(reported(a, reports[0]).0, reports.drop_first())
    }
}

/// What a step leaves as it is: the configuration, the bindings, the
/// schema, the slots, the mode, and every turn that was in the log.
pub open spec fn carried(a: AgentView, b: AgentView) -> bool {
    &&& b.config == a.config
    &&& b.reads == a.reads
    &&& b.write == a.write
    &&& b.schema == a.schema
    &&& b.taken == a.taken
    &&& b.mode == a.mode
    &&& a.log.len() <= b.log.len()
    &&& b.log.subrange(0, a.log.len() as int) == a.log
}

/// The top of the loop counts every model call that it asks for, and asks
/// for none once the budget is used up: it then fails with
/// `MaxIterations`, whatever the step did before.
pub proof fn law_budget_at_loop_top(a: AgentView, events: Seq<EventView>)
    ensures
        a.iterations < a.config.max_iterations ==> {
            &&& next_turn(a, events).1.action is CallModel
            &&& next_turn(a, events).0.iterations == a.iterations + 1
            &&& next_turn(a, events).0.finish is None
        },
        a.iterations >= a.config.max_iterations ==> {
            &&& next_turn(a, events).1.action == ActionView::Failed {
                error: ErrorView::MaxIterations(a.config.max_iterations),
            }
            &&& next_turn(a, events).0.iterations == a.iterations
            &&& next_turn(a, events).0.pending is Done
        },
        carried(a, next_turn(a, events).0),
{
    assert(a.log.subrange(0, a.log.len() as int) =~= a.log);
}

/// A retry adds to the log exactly its one corrective user turn and
/// empties the finish slot before it asks for the model, if the budget
/// allows another call; if not, it fails with the problem as a
/// `Deserialization` error and leaves the log as it is.
pub proof fn law_retry(
    a: AgentView,
    events: Seq<EventView>,
    problem: Seq<char>,
    feedback: Seq<char>,
)
    ensures
        a.iterations < a.config.max_iterations ==> {
            &&& retry(a, events, problem, feedback).1.action is CallModel
            &&& retry(a, events, problem, feedback).0.log == a.log.push(
                turn(Role::User, feedback),
            )
            &&& retry(a, events, problem, feedback).0.finish is None
            &&& retry(a, events, problem, feedback).0.iterations == a.iterations + 1
        },
        a.iterations >= a.config.max_iterations ==> {
            &&& retry(a, events, problem, feedback).1.action == ActionView::Failed {
                error: ErrorView::Deserialization(problem),
            }
            &&& retry(a, events, problem, feedback).0.log == a.log
            &&& retry(a, events, problem, feedback).0.iterations == a.iterations
        },
        carried(a, retry(a, events, problem, feedback).0),
{
    assert(a.log.subrange(0, a.log.len() as int) =~= a.log);
    assert(a.log.push(turn(Role::User, feedback)).subrange(0, a.log.len() as int) =~= a.log);
}

/// A candidate that fails the schema leads to exactly one corrective user
/// turn, which holds the report of the failure, and to an empty finish
/// slot before the model is called again; the failure is reported in one
/// error event. With the budget used up it ends the run with a
/// `Deserialization` error instead, and no turn is added.
pub proof fn law_schema_failure_is_fed_back(
    a: AgentView,
    candidate: JsonTree,
    origin: OriginView,
    issues: Seq<IssueView>,
)
    requires
        a.schema is Some,
        issues.len() > 0,
    ensures
        ({
            let report = schema_report(issues, a.schema->0, candidate);
            let after = validated(a, candidate, origin, issues);
            &&& after.1.events.len() >= 1
            &&& after.1.events[0] == EventView::Error { message: schema_problem(report) }
            &&& a.iterations < a.config.max_iterations ==> {
                &&& after.0.log == a.log.push(turn(Role::User, schema_feedback(report)))
                &&& after.0.finish is None
                &&& after.1.action is CallModel
                &&& after.0.pending is Model
            }
            &&& a.iterations >= a.config.max_iterations ==> {
                &&& after.0.log == a.log
                &&& after.1.action == ActionView::Failed {
                    error: ErrorView::Deserialization(schema_problem(report)),
                }
            }
        }),
{
    let report = schema_report(issues, a.schema->0, candidate);
    law_retry(a, Seq::empty(), schema_problem(report), schema_feedback(report));
}

/// A candidate that meets the schema goes to decoding: nothing is added to
/// the log and no event is emitted.
pub proof fn law_schema_success_goes_on(
    a: AgentView,
    candidate: JsonTree,
    origin: OriginView,
)
    ensures
        validated(a, candidate, origin, Seq::empty()).1.action == (ActionView::Decode {
            candidate,
        }),
        validated(a, candidate, origin, Seq::empty()).0.log == a.log,
        validated(a, candidate, origin, Seq::empty()).1.events.len() == 0,
{
}

/// A finish block whose payload parses sets the finish slot of a run to
/// the payload, as a sandbox value, and the slot holds it until the run
/// is complete or the model is asked again.
pub proof fn law_finish_block_sets_the_slot(
    a: AgentView,
    text: Seq<char>,
    candidate: JsonTree,
)
    requires
        a.mode == Mode::Run,
        finish_block(text) is Some,
    ensures
        ({
            let found = replied_with(a, text, Ok(candidate));
            let value = Some(py_of_json(candidate));
            &&& found.0.finish == value
            &&& found.0.pending is Validation || found.0.pending is Decode
            &&& found.0.pending is Decode ==> decoded(
                found.0,
                candidate,
                found.0.pending->Decode_origin,
                Ok(()),
            ).0.finish == value
            &&& found.0.pending is Validation ==> validated(
                found.0,
                candidate,
                found.0.pending->Validation_origin,
                Seq::empty(),
            ).0.finish == value
        }),
{
}

/// Whenever the model is about to be called, the finish slot is empty.
pub proof fn law_finish_slot_empty_before_call(a: AgentView, r: Report)
    requires
        fits(a, r),
    ensures
        reported(a, r).1.action is CallModel ==> reported(a, r).0.finish is None,
{
}

/// Every step counts the model call that it asks for, stays within the
/// budget, and leaves configuration, bindings, schema, slots and the
/// turns already in the log as they are.
pub proof fn law_step_keeps_budget_and_log(a: AgentView, r: Report)
    requires
        fits(a, r),
        a.iterations <= a.config.max_iterations,
    ensures
        reported(a, r).0.iterations == a.iterations + calls(reported(a, r).1),
        reported(a, r).0.iterations <= a.config.max_iterations,
        carried(a, reported(a, r).0),
{
    assert(a.log.subrange(0, a.log.len() as int) =~= a.log);
    match r {
        Report::Reply(text) => {
            let b = AgentView { log: a.log.push(turn(Role::Assistant, text)), ..a };
            assert(b.log.subrange(0, a.log.len() as int) =~= a.log);
            let after = replied_with(a, text, crate::agent::payload_parsed(text)).0;
            assert(after.log.subrange(0, a.log.len() as int) =~= a.log);
        },
        Report::ModelFailure(_) => {},
        Report::Execution(outcome, captured) => {
            let after = executed(a, a.pending->Execution_code, outcome, captured).0;
            assert(after.log.subrange(0, a.log.len() as int) =~= a.log);
        },
        Report::Findings(issues) => {
            let after = validated(
                a,
                a.pending->Validation_candidate,
                a.pending->Validation_origin,
                issues,
            ).0;
            assert(after.log.subrange(0, a.log.len() as int) =~= a.log);
        },
        Report::Decoding(result) => {
            let after = decoded(a, a.pending->Decode_candidate, a.pending->Decode_origin, result).0;
            assert(after.log.subrange(0, a.log.len() as int) =~= a.log);
        },
        Report::TextDecoding(_) => {},
    }
}

/// From an agent within its budget, no sequence of reports makes the loop
/// ask for more model calls than the budget has left.
pub proof fn lemma_calls_within_budget(a: AgentView, reports: Seq<Report>)
    requires
        a.iterations <= a.config.max_iterations,
    ensures
        a.iterations + calls_in(a, reports) <= a.config.max_iterations,
        after_reports(a, reports).iterations == a.iterations + calls_in(a, reports),
        after_reports(a, reports).config == a.config,
    decreases reports.len(),
{
    if reports.len() > 0 && fits(a, reports[0]) {
        law_step_keeps_budget_and_log(a, reports[0]);
        lemma_calls_within_budget(reported(a, reports[0]).0, reports.drop_first());
    }
}

/// A run never asks for more than `max_iterations` model calls, whatever
/// the model, the sandbox, the validator and the decoder answer.
pub proof fn law_run_budget(a: AgentView, prompt: Seq<char>, task: Seq<char>, reports: Seq<Report>)
    ensures
        calls(noted(run_begun(a, prompt, task)).1) + calls_in(
            noted(run_begun(a, prompt, task)).0,
            reports,
        ) <= a.config.max_iterations,
{
    let start = noted(run_begun(a, prompt, task));
    assert(start.0.iterations == calls(start.1));
    lemma_calls_within_budget(start.0, reports);
}

/// A conversation turn never asks for more than `max_iterations` model
/// calls either.
pub proof fn law_chat_budget(
    a: AgentView,
    prompt: Seq<char>,
    message: Seq<char>,
    reports: Seq<Report>,
)
    ensures
        calls(noted(chat_begun(a, prompt, message)).1) + calls_in(
            noted(chat_begun(a, prompt, message)).0,
            reports,
        ) <= a.config.max_iterations,
{
    let start = noted(chat_begun(a, prompt, message));
    assert(start.0.iterations == calls(start.1));
    lemma_calls_within_budget(start.0, reports);
}

/// The log after any reports still begins with the turns that it held
/// before them.
pub proof fn lemma_log_grows(a: AgentView, reports: Seq<Report>)
    requires
        a.iterations <= a.config.max_iterations,
    ensures
        carried(a, after_reports(a, reports)),
    decreases reports.len(),
{
    assert(a.log.subrange(0, a.log.len() as int) =~= a.log);
    if reports.len() > 0 && fits(a, reports[0]) {
        law_step_keeps_budget_and_log(a, reports[0]);
        let b = reported(a, reports[0]).0;
        lemma_log_grows(b, reports.drop_first());
        let c = after_reports(b, reports.drop_first());
        assert(c.log.subrange(0, a.log.len() as int) =~= c.log.subrange(
            0,
            b.log.len() as int,
        ).subrange(0, a.log.len() as int));
    }
}

/// A run reads the context store once, at its start: the task turn of the
/// log holds what the store held then, and stays as it is through the
/// whole run, whatever is written to the store later.
pub proof fn law_context_is_read_at_start(
    a: AgentView,
    prompt: Seq<char>,
    store: Option<Map<Seq<char>, JsonTree>>,
    task: Seq<char>,
    reports: Seq<Report>,
)
    ensures
        ({
            let start = noted(run_begun(a, prompt, seen_task(a.reads, store, task))).0;
            let end = after_reports(start, reports);
            &&& end.log.len() >= 2
            &&& end.log[0] == turn(Role::System, prompt)
            &&& end.log[1] == turn(Role::User, seen_task(a.reads, store, task))
        }),
{
    let start = noted(run_begun(a, prompt, seen_task(a.reads, store, task))).0;
    lemma_log_grows(start, reports);
    let end = after_reports(start, reports);
    assert(end.log.subrange(0, start.log.len() as int)[0] == end.log[0]);
    assert(end.log.subrange(0, start.log.len() as int)[1] == end.log[1]);
}

/// What the finish capability hands back carries the finish marker, and
/// an execution whose value it is shows the marker to the loop, whatever
/// was printed before: the loop then takes the stored value as the
/// candidate.
pub proof fn law_finish_output_is_seen(value: PyTree, printed: Seq<Seq<char>>)
    ensures
        contains(
            rendered(
                Ok(
                    OutputView {
                        value: PyTree::Str(FINISH_MARKER@ + plain(value)),
                        output: printed,
                    },
                ),
            ),
            FINISH_MARKER@,
        ),
{
    let marker = FINISH_MARKER@;
    let out = OutputView { value: PyTree::Str(marker + plain(value)), output: printed };
    let shown = formatted(out.value);
    reveal_strlit("None");
    reveal_strlit("\"");
    assert(shown[0] == '"');
    assert("None"@[0] == 'N');
    assert(shown != "None"@);
    let last = "=> "@ + shown;
    let parts = rendered_parts(out);
    assert(parts.last() == last);
    let before: Seq<char> = if parts.len() == 1 {
        Seq::empty()
    } else {
        joined(parts.drop_last(), "\n"@) + "\n"@
    };
    assert(joined(parts, "\n"@) =~= before + last);
    let text = rendered(Ok(out));
    let at = (before.len() + "=> "@.len() + "\""@.len()) as int;
    assert(text.subrange(at, at + marker.len()) =~= marker);
    lemma_occurrence_is_found(text, marker, at);
}

} // verus!
