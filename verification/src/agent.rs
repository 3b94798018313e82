//! The agent and its run loop.
//!
//! The loop is a state machine. The agent decides; the caller does the
//! outside work. Every step ends in an [`Action`] that names what the caller
//! has to do next (call the model, execute code, decode a candidate), and
//! the caller reports the outcome with the matching `on_*` method, which
//! ends in the next action. The machine is given twice: as functions on the
//! mathematical value of an agent, which say what a step is, and as methods
//! that are proved to compute exactly that.

use vstd::prelude::*;
use vstd::string::StringExecFns;
use crate::config::{AgentConfig, ConfigView};
use crate::context::{injected, opt_tree, Context};
use crate::error::{Error, ErrorView};
use crate::events::{
    events_of, kind_of, verbose_callbacks, verbose_slots, AgentCallbacks, AgentEvent, EventKind,
    EventView, Slot,
};
use crate::json::{
    json_of_py, json_parse, json_compact, json_to_pyvalue, py_of_json, pyvalue_to_json, Json,
    JsonTree,
};
use crate::message::{log_of, opt_view, turn, Message, MessageView, Role};
use crate::parser::{
    code_block, extract_code, extract_finish, extract_thinking, finish_block, thinking_block,
};
use crate::prompt::{system_prompt, system_prompt_text, FINISH_MARKER};
use crate::schema::{
    issues_of, judge_schema, schema_compile_error, schema_compiles, schema_findings,
    schema_issues, schema_verdict, IssueView, SchemaIssue,
};
use crate::text::{
    contains, decimal, occurs_at, push_decimal, text_contains, text_eq, text_starts_with,
};
use crate::value::{
    format_pyvalue, formatted, join, joined, plain, pyvalue_to_string, views, PyTree, PyValue,
};

verus! {

/// What a loop is for: a typed result, or a conversation.
#[derive(Clone, Copy, Debug, PartialEq, Eq, Structural)]
pub enum Mode {
    /// One task, answered by a result that is decoded into the caller's
    /// type.
    Run,
    /// One message of a conversation, answered by text.
    Chat,
}

/// Where a candidate result came from.
#[derive(Clone, Debug, PartialEq)]
pub enum Origin {
    /// A finish block of the response, with its payload as written.
    Block { payload: String },
    /// The finish capability, called by executed code.
    Tool,
}

/// The mathematical value of an [`Origin`].
pub enum OriginView {
    Block { payload: Seq<char> },
    Tool,
}

impl View for Origin {
    type V = OriginView;

    open spec fn view(&self) -> OriginView {
        match self {
            Origin::Block { payload } => OriginView::Block { payload: payload@ },
            Origin::Tool => OriginView::Tool,
        }
    }
}

/// What the agent waits for.
#[derive(Debug, PartialEq)]
pub enum Pending {
    /// No loop is under way.
    Idle,
    /// The model's response.
    Model,
    /// The outcome of executing `code`.
    Execution { code: String },
    /// The validator's findings on `candidate`.
    Validation { candidate: Json, origin: Origin },
    /// Whether `candidate` decodes into the caller's type.
    Decode { candidate: Json, origin: Origin },
    /// Whether the plain text of the response decodes into the caller's
    /// type.
    TextDecode,
    /// Nothing: the loop has ended.
    Done,
}

/// The mathematical value of a [`Pending`].
pub enum PendingView {
    Idle,
    Model,
    Execution { code: Seq<char> },
    Validation { candidate: JsonTree, origin: OriginView },
    Decode { candidate: JsonTree, origin: OriginView },
    TextDecode,
    Done,
}

impl View for Pending {
    type V = PendingView;

    open spec fn view(&self) -> PendingView {
        match self {
            Pending::Idle => PendingView::Idle,
            Pending::Model => PendingView::Model,
            Pending::Execution { code } => PendingView::Execution { code: code@ },
            Pending::Validation { candidate, origin } => PendingView::Validation {
                candidate: candidate@,
                origin: origin@,
            },
            Pending::Decode { candidate, origin } => PendingView::Decode {
                candidate: candidate@,
                origin: origin@,
            },
            Pending::TextDecode => PendingView::TextDecode,
            Pending::Done => PendingView::Done,
        }
    }
}

/// What the caller has to do next.
#[derive(Debug, PartialEq)]
pub enum Action {
    /// Call the model with the agent's log, and report with
    /// `on_model_reply` or `on_model_failed`.
    CallModel,
    /// Execute `code` in the sandbox, and report with `on_executed`.
    Execute { code: String },
    /// Check `candidate` against the agent's schema, and report with
    /// `on_validated`.
    Validate { candidate: Json },
    /// Decode `candidate` into the result type, and report with
    /// `on_decoded`.
    Decode { candidate: Json },
    /// Decode the plain text `text` into the result type, and report with
    /// `on_text_decoded`.
    DecodeText { text: String },
    /// Nothing more: the run is complete, and the decoded result is its
    /// result.
    Finished,
    /// Nothing more: the conversation turn is complete, and `text` is its
    /// answer.
    Reply { text: String },
    /// Nothing more: the loop has failed.
    Failed { error: Error },
}

/// The mathematical value of an [`Action`].
pub enum ActionView {
    CallModel,
    Execute { code: Seq<char> },
    Validate { candidate: JsonTree },
    Decode { candidate: JsonTree },
    DecodeText { text: Seq<char> },
    Finished,
    Reply { text: Seq<char> },
    Failed { error: ErrorView },
}

impl View for Action {
    type V = ActionView;

    open spec fn view(&self) -> ActionView {
        match self {
            Action::CallModel => ActionView::CallModel,
            Action::Execute { code } => ActionView::Execute { code: code@ },
            Action::Validate { candidate } => ActionView::Validate { candidate: candidate@ },
            Action::Decode { candidate } => ActionView::Decode { candidate: candidate@ },
            Action::DecodeText { text } => ActionView::DecodeText { text: text@ },
            Action::Finished => ActionView::Finished,
            Action::Reply { text } => ActionView::Reply { text: text@ },
            Action::Failed { error } => ActionView::Failed { error: error@ },
        }
    }
}

/// One step of the loop: the events it emitted, in order, and what the
/// caller has to do next.
#[derive(Debug, PartialEq)]
pub struct Step {
    pub events: Vec<AgentEvent>,
    pub action: Action,
}

/// The mathematical value of a [`Step`].
#[verifier::ext_equal]
pub struct StepView {
    pub events: Seq<EventView>,
    pub action: ActionView,
}

impl View for Step {
    type V = StepView;

    open spec fn view(&self) -> StepView {
        StepView { events: events_of(self.events@), action: self.action@ }
    }
}

/// What the sandbox hands back for one execution: the value of the last
/// expression, and the lines that were printed.
#[derive(Debug, PartialEq)]
pub struct Output {
    pub value: PyValue,
    pub output: Vec<String>,
}

/// The mathematical value of an [`Output`].
pub struct OutputView {
    pub value: PyTree,
    pub output: Seq<Seq<char>>,
}

impl View for Output {
    type V = OutputView;

    open spec fn view(&self) -> OutputView {
        OutputView { value: self.value@, output: views(self.output@) }
    }
}

/// The view of the outcome of an execution: the output, or the text of the
/// sandbox's error.
pub open spec fn outcome_view(outcome: Result<Output, String>) -> Result<OutputView, Seq<char>> {
    match outcome {
        Ok(out) => Ok(out@),
        Err(e) => Err(e@),
    }
}

/// The view of the outcome of a decoding: done, or the text of the
/// decoder's error.
pub open spec fn decoded_view(result: Result<(), String>) -> Result<(), Seq<char>> {
    match result {
        Ok(_) => Ok(()),
        Err(e) => Err(e@),
    }
}

/// The view of the outcome of a parse: the document, or the text of the
/// parser's error.
pub open spec fn parsed_view(parsed: Result<Json, String>) -> Result<JsonTree, Seq<char>> {
    match parsed {
        Ok(j) => Ok(j@),
        Err(e) => Err(e@),
    }
}

/// The view of an optional value.
pub open spec fn opt_py(v: Option<PyValue>) -> Option<PyTree> {
    match v {
        Some(x) => Some(x@),
        None => None,
    }
}

/// The mathematical value of an [`Agent`].
#[verifier::ext_equal]
pub struct AgentView {
    pub config: ConfigView,
    /// The conversation so far.
    pub log: Seq<MessageView>,
    /// The finish slot.
    pub finish: Option<PyTree>,
    /// The keys read from the context store at the start of a run.
    pub reads: Seq<Seq<char>>,
    /// The key under which the result of a run is stored.
    pub write: Option<Seq<char>>,
    /// The schema that a result has to meet.
    pub schema: Option<JsonTree>,
    /// The callback slots that are taken.
    pub taken: Set<Slot>,
    /// The events captured so far, where capture is on.
    pub captured: Option<Seq<EventView>>,
    /// Model calls made in the current loop.
    pub iterations: nat,
    pub mode: Mode,
    pub pending: PendingView,
}

/// What the model is shown of an execution: the printed lines, then the
/// value of the last expression behind `=> ` unless it is the "no value"
/// sentinel; a fixed sentence where there is neither; an `Error: ` line
/// where the sandbox failed.
pub open spec fn rendered(outcome: Result<OutputView, Seq<char>>) -> Seq<char> {
    match outcome {
        Err(e) => "Error: "@ + e,
        Ok(out) => {
            let parts = rendered_parts(out);
            if parts.len() == 0 {
                "Code executed successfully (no output)."@
            } else {
                joined(parts, "\n"@)
            }
        },
    }
}

/// The parts of a rendered execution: the printed lines as one part, the
/// value as another.
pub open spec fn rendered_parts(out: OutputView) -> Seq<Seq<char>> {
    let printed = if out.output.len() > 0 {
        seq![joined(out.output, "\n"@)]
    } else {
        Seq::<Seq<char>>::empty()
    };
    if formatted(out.value) != "None"@ {
        printed.push("=> "@ + formatted(out.value))
    } else {
        printed
    }
}

/// The error message for a used-up budget of `max` iterations.
pub open spec fn budget_text(max: nat) -> Seq<char> {
    "Max iterations ("@ + decimal(max) + ") reached"@
}

/// The user turn that shows the model the output of its code.
pub open spec fn output_turn(output: Seq<char>) -> Seq<char> {
    "Execution output:\n```\n"@ + output + "\n```"@
}

/// What is wrong with a finish block that does not parse or decode.
pub open spec fn block_problem(error: Seq<char>) -> Seq<char> {
    "Invalid JSON in <finish> block: "@ + error
}

/// The corrective turn for a finish block that does not parse or decode.
pub open spec fn block_feedback(error: Seq<char>, payload: Seq<char>) -> Seq<char> {
    "Error parsing your <finish> block:\n\n"@ + error + "\n\nYour output:\n```\n"@ + payload
        + "\n```\n\nPlease fix and try again."@
}

/// What is wrong with a finish value that does not decode.
pub open spec fn tool_problem(error: Seq<char>) -> Seq<char> {
    "Invalid finish() output: "@ + error
}

/// The corrective turn for a finish value that does not decode.
pub open spec fn tool_feedback(error: Seq<char>, shown: Seq<char>) -> Seq<char> {
    "Error parsing your finish() output:\n\n"@ + error + "\n\nYour output:\n```\n"@ + shown
        + "\n```\n\nPlease fix and try again."@
}

/// What is wrong with a candidate that fails the schema.
pub open spec fn schema_problem(report: Seq<char>) -> Seq<char> {
    "Schema validation failed: "@ + report
}

/// The corrective turn for a candidate that fails the schema.
pub open spec fn schema_feedback(report: Seq<char>) -> Seq<char> {
    "Your output did not match the expected schema.\n\n"@ + report
        + "\n\nPlease fix and try again."@
}

/// The top of the loop. With the budget used up the loop fails; else the
/// iteration is counted, the finish slot is emptied, and the model is
/// called. `events` are the events of the step so far.
pub open spec fn next_turn(a: AgentView, events: Seq<EventView>) -> (AgentView, StepView) {
    let max = a.config.max_iterations;
    if a.iterations >= max {
        (
            AgentView { pending: PendingView::Done, ..a },
            StepView {
                events: events.push(EventView::Error { message: budget_text(max) }),
                action: ActionView::Failed { error: ErrorView::MaxIterations(max) },
            },
        )
    } else {
        (
            AgentView {
                iterations: a.iterations + 1,
                finish: None,
                pending: PendingView::Model,
                ..a
            },
            StepView {
                events: events.push(
                    EventView::IterationStart { iteration: a.iterations + 1, max_iterations: max },
                ).push(EventView::LLMRequest { message_count: a.log.len() }),
                action: ActionView::CallModel,
            },
        )
    }
}

/// The one way to ask the model again. The problem is reported as an error
/// event. With the budget used up the loop fails with that problem; else
/// the finish slot is emptied, exactly one user turn with the feedback is
/// added, and the loop goes to its top.
pub open spec fn retry(
    a: AgentView,
    events: Seq<EventView>,
    problem: Seq<char>,
    feedback: Seq<char>,
) -> (AgentView, StepView) {
    let reported = events.push(EventView::Error { message: problem });
    if a.iterations >= a.config.max_iterations {
        (
            AgentView { pending: PendingView::Done, ..a },
            StepView {
                events: reported,
                action: ActionView::Failed { error: ErrorView::Deserialization(problem) },
            },
        )
    } else {
        next_turn(
            AgentView { finish: None, log: a.log.push(turn(Role::User, feedback)), ..a },
            reported,
        )
    }
}

/// A candidate is at hand: with a schema attached it is validated first,
/// else it goes to decoding at once.
pub open spec fn candidate_found(
    a: AgentView,
    events: Seq<EventView>,
    candidate: JsonTree,
    origin: OriginView,
) -> (AgentView, StepView) {
    if a.schema is Some {
        (
            AgentView { pending: PendingView::Validation { candidate, origin }, ..a },
            StepView { events, action: ActionView::Validate { candidate } },
        )
    } else {
        (
            AgentView { pending: PendingView::Decode { candidate, origin }, ..a },
            StepView { events, action: ActionView::Decode { candidate } },
        )
    }
}

/// The events that report a response: the response itself, and the model's
/// thinking where a thinking tag is configured and the response holds it.
pub open spec fn reply_events(a: AgentView, text: Seq<char>) -> Seq<EventView> {
    let said = seq![EventView::LLMResponse { content: text, tokens_used: None }];
    match a.config.thinking_tag {
        Some(tag) => match thinking_block(text, tag) {
            Some(thought) => said.push(EventView::Thinking { content: thought }),
            None => said,
        },
        None => said,
    }
}

/// The response holds a finish block with this payload, of which the JSON
/// parser makes `parsed`. In a run, a payload that parses is the candidate,
/// and the finish slot is set to it, as a sandbox value; one that does not
/// parse asks the model again. In a conversation the payload is the
/// answer as it stands, and the finish slot is set to it, as text.
pub open spec fn block_read(
    a: AgentView,
    events: Seq<EventView>,
    payload: Seq<char>,
    parsed: Result<JsonTree, Seq<char>>,
) -> (AgentView, StepView) {
    match a.mode {
        Mode::Run => match parsed {
            Ok(candidate) => candidate_found(
                AgentView { finish: Some(py_of_json(candidate)), ..a },
                events,
                candidate,
                OriginView::Block { payload },
            ),
            Err(e) => retry(a, events, block_problem(e), block_feedback(e, payload)),
        },
        Mode::Chat => (
            AgentView { finish: Some(PyTree::Str(payload)), pending: PendingView::Done, ..a },
            StepView {
                events: events.push(EventView::Finish { value: PyTree::Str(payload) }),
                action: ActionView::Reply { text: payload },
            },
        ),
    }
}

/// The model has responded with `text`. The response joins the log. A
/// finish block is read first, then a code block, then the response counts
/// as plain text. `parsed` is what the JSON parser makes of the payload of
/// the finish block; it counts only where the response holds one.
pub open spec fn replied_with(
    a: AgentView,
    text: Seq<char>,
    parsed: Result<JsonTree, Seq<char>>,
) -> (AgentView, StepView) {
    let events = reply_events(a, text);
    let b = AgentView { log: a.log.push(turn(Role::Assistant, text)), ..a };
    match finish_block(text) {
        Some(payload) => block_read(b, events, payload, parsed),
        None => match code_block(text) {
            Some(code) => (
                AgentView { pending: PendingView::Execution { code }, ..b },
                StepView {
                    events: events.push(EventView::CodeGenerated { code }),
                    action: ActionView::Execute { code },
                },
            ),
            None => match a.mode {
                Mode::Run => (
                    AgentView { pending: PendingView::TextDecode, ..b },
                    StepView { events, action: ActionView::DecodeText { text } },
                ),
                Mode::Chat => (
                    AgentView { pending: PendingView::Done, ..b },
                    StepView { events, action: ActionView::Reply { text } },
                ),
            },
        },
    }
}

/// What the JSON parser makes of the payload of the finish block of
/// `text`.
pub open spec fn payload_parsed(text: Seq<char>) -> Result<JsonTree, Seq<char>> {
    match finish_block(text) {
        Some(payload) => json_parse(payload),
        None => Err(Seq::empty()),
    }
}

/// The model has responded with `text`: [`replied_with`] what the JSON
/// parser makes of the payload of its finish block.
pub open spec fn replied(a: AgentView, text: Seq<char>) -> (AgentView, StepView) {
    replied_with(a, text, payload_parsed(text))
}

/// The model call has failed: the loop fails with the client's error.
pub open spec fn model_failed(a: AgentView, message: Seq<char>) -> (AgentView, StepView) {
    (
        AgentView { pending: PendingView::Done, ..a },
        StepView {
            events: Seq::empty(),
            action: ActionView::Failed { error: ErrorView::Llm(message) },
        },
    )
}

/// The code `code` has been executed. `captured` is what the finish
/// capability stored during the execution, if it was called. An output
/// that holds the finish marker ends the work on the task: the stored
/// value is the candidate. Any other output is shown to the model in a
/// user turn, and the loop goes to its top.
pub open spec fn executed(
    a: AgentView,
    code: Seq<char>,
    outcome: Result<OutputView, Seq<char>>,
    captured: Option<PyTree>,
) -> (AgentView, StepView) {
    let output = rendered(outcome);
    let events = seq![
        EventView::CodeExecuted { code, output, success: !occurs_at(output, "Error:"@, 0) },
    ];
    let b = AgentView { finish: captured, ..a };
    if contains(output, FINISH_MARKER@) {
        match (captured, a.mode) {
            (Some(value), Mode::Run) => candidate_found(
                b,
                events,
                json_of_py(value),
                OriginView::Tool,
            ),
            (Some(value), Mode::Chat) => (
                AgentView { pending: PendingView::Done, ..b },
                StepView {
                    events: events.push(EventView::Finish { value }),
                    action: ActionView::Reply { text: plain(value) },
                },
            ),
            (None, Mode::Run) => (
                AgentView { pending: PendingView::Done, ..b },
                StepView {
                    events,
                    action: ActionView::Failed {
                        error: ErrorView::Deserialization("No finish value captured"@),
                    },
                },
            ),
            (None, Mode::Chat) => (
                AgentView { pending: PendingView::Done, ..b },
                StepView { events, action: ActionView::Reply { text: Seq::empty() } },
            ),
        }
    } else {
        next_turn(AgentView { log: b.log.push(turn(Role::User, output_turn(output))), ..b }, events)
    }
}

/// The validator has reported `issues` on the candidate. Without issues
/// the candidate goes to decoding; with issues the model is asked again,
/// with the report of what failed.
pub open spec fn validated(
    a: AgentView,
    candidate: JsonTree,
    origin: OriginView,
    issues: Seq<IssueView>,
) -> (AgentView, StepView) {
    let accepted = (
        AgentView { pending: PendingView::Decode { candidate, origin }, ..a },
        StepView { events: Seq::empty(), action: ActionView::Decode { candidate } },
    );
    match a.schema {
        Some(schema) => match schema_verdict(issues, schema, candidate) {
            Err(report) => retry(a, Seq::empty(), schema_problem(report), schema_feedback(report)),
            Ok(_) => accepted,
        },
        None => accepted,
    }
}

/// What the validator finds against the candidate that awaits validation;
/// nothing where no schema is attached or no candidate waits.
pub open spec fn pending_findings(a: AgentView) -> Seq<IssueView> {
    match (a.schema, a.pending) {
        (Some(schema), PendingView::Validation { candidate, .. }) => schema_issues(
            schema,
            candidate,
        ),
        _ => Seq::empty(),
    }
}

/// The candidate that awaits validation is checked: [`validated`], with
/// the validator's own findings on it.
pub open spec fn checked(a: AgentView) -> (AgentView, StepView) {
    validated(
        a,
        a.pending->Validation_candidate,
        a.pending->Validation_origin,
        pending_findings(a),
    )
}

/// The value that a finish event reports for a candidate: the value that
/// the finish capability stored, or the candidate of a finish block as a
/// sandbox value.
pub open spec fn finish_value_of(
    a: AgentView,
    candidate: JsonTree,
    origin: OriginView,
) -> PyTree {
    match (origin, a.finish) {
        (OriginView::Tool, Some(value)) => value,
        _ => py_of_json(candidate),
    }
}

/// The caller has tried to decode the candidate. Success completes the
/// run; a failure asks the model again, with the decoder's error and the
/// offending payload.
pub open spec fn decoded(
    a: AgentView,
    candidate: JsonTree,
    origin: OriginView,
    result: Result<(), Seq<char>>,
) -> (AgentView, StepView) {
    match result {
        Ok(_) => (
            AgentView { pending: PendingView::Done, ..a },
            StepView {
                events: seq![
                    EventView::Finish { value: finish_value_of(a, candidate, origin) },
                ],
                action: ActionView::Finished,
            },
        ),
        Err(e) => match origin {
            OriginView::Block { payload } => retry(
                a,
                Seq::empty(),
                block_problem(e),
                block_feedback(e, payload),
            ),
            OriginView::Tool => retry(
                a,
                Seq::empty(),
                tool_problem(e),
                tool_feedback(e, json_compact(candidate)),
            ),
        },
    }
}

/// The caller has tried to decode the plain text of the response: success
/// completes the run, a failure is final.
pub open spec fn text_decoded(a: AgentView, result: Result<(), Seq<char>>) -> (
    AgentView,
    StepView,
) {
    (
        AgentView { pending: PendingView::Done, ..a },
        StepView {
            events: Seq::empty(),
            action: match result {
                Ok(_) => ActionView::Finished,
                Err(e) => ActionView::Failed { error: ErrorView::Deserialization(e) },
            },
        },
    )
}

/// A run on `task` starts: the log is reset to the system prompt and the
/// task, the finish slot is emptied, no iteration is counted yet, and the
/// loop goes to its top.
pub open spec fn run_begun(a: AgentView, prompt: Seq<char>, task: Seq<char>) -> (
    AgentView,
    StepView,
) {
    next_turn(
        AgentView {
            log: seq![turn(Role::System, prompt), turn(Role::User, task)],
            finish: None,
            iterations: 0,
            mode: Mode::Run,
            pending: PendingView::Idle,
            ..a
        },
        Seq::empty(),
    )
}

/// A conversation turn on `message` starts: the log is kept, and gets the
/// system prompt first if it is empty; the message joins it; the finish
/// slot is emptied, no iteration is counted yet, and the loop goes to its
/// top.
pub open spec fn chat_begun(a: AgentView, prompt: Seq<char>, message: Seq<char>) -> (
    AgentView,
    StepView,
) {
    let seeded = if a.log.len() == 0 {
        seq![turn(Role::System, prompt)]
    } else {
        a.log
    };
    next_turn(
        AgentView {
            log: seeded.push(turn(Role::User, message)),
            finish: None,
            iterations: 0,
            mode: Mode::Chat,
            pending: PendingView::Idle,
            ..a
        },
        Seq::empty(),
    )
}

/// What a context store holds, if there is one.
pub open spec fn held(store: Option<&Context>) -> Option<Map<Seq<char>, JsonTree>> {
    match store {
        Some(s) => Some(s@),
        None => None,
    }
}

/// The task as the model gets it: with what the store holds under the
/// bound keys in front of it, or as it is where the agent has no store.
pub open spec fn seen_task(
    reads: Seq<Seq<char>>,
    store: Option<Map<Seq<char>, JsonTree>>,
    task: Seq<char>,
) -> Seq<char> {
    match store {
        Some(m) => injected(reads, m, task),
        None => task,
    }
}

/// The events of a step are captured where capture is on.
pub open spec fn noted(r: (AgentView, StepView)) -> (AgentView, StepView) {
    (
        AgentView {
            captured: match r.0.captured {
                Some(c) => Some(c + r.1.events),
                None => None,
            },
            ..r.0
        },
        r.1,
    )
}

/// The agent that a fresh agent with `config` is.
pub open spec fn fresh(config: ConfigView) -> AgentView {
    AgentView {
        config,
        log: Seq::empty(),
        finish: None,
        reads: Seq::empty(),
        write: None,
        schema: None,
        taken: Set::empty(),
        captured: None,
        iterations: 0,
        mode: Mode::Run,
        pending: PendingView::Idle,
    }
}

/// The agent that is derived from `a` for a task of its own: the same
/// configuration, bindings, schema and slots; an empty log, an empty
/// finish slot, and nothing captured yet.
pub open spec fn forked(a: AgentView) -> AgentView {
    AgentView {
        log: Seq::empty(),
        finish: None,
        captured: match a.captured {
            Some(_) => Some(Seq::empty()),
            None => None,
        },
        iterations: 0,
        mode: Mode::Run,
        pending: PendingView::Idle,
        ..a
    }
}

/// Validation never ends in a request for validation.
pub proof fn lemma_validated_goes_on(
    a: AgentView,
    candidate: JsonTree,
    origin: OriginView,
    issues: Seq<IssueView>,
)
    ensures
        validated(a, candidate, origin, issues).1.action !is Validate,
{
}

/// The name under which the finish capability is registered.
pub const FINISH_TOOL: &'static str = "finish";

/// Whether a finish capability is among the registered tools, which are
/// given by name. Where none is, the default one has to be registered
/// before a loop starts.
pub fn has_finish_tool(names: &Vec<String>) -> (b: bool)
    ensures
        b == views(names@).contains(FINISH_TOOL@),
{
    let mut i: usize = 0;
    while i < names.len()
        invariant
            0 <= i <= names.len(),
            forall|j: int| 0 <= j < i ==> names[j]@ != FINISH_TOOL@,
        decreases names.len() - i,
    {
        if text_eq(names[i].as_str(), FINISH_TOOL) {
            assert(views(names@)[i as int] == FINISH_TOOL@);
            return true;
        }
        i += 1;
    }
    assert forall|j: int| 0 <= j < views(names@).len() implies views(names@)[j] != FINISH_TOOL@ by {
        assert(views(names@)[j] == names[j]@);
    }
    false
}

/// Appends an event to the events of a step.
pub fn add_event(events: &mut Vec<AgentEvent>, event: AgentEvent)
    ensures
        events_of(final(events)@) == events_of(old(events)@).push(event@),
{
    events.push(event);
    assert(events_of(events@) =~= events_of(old(events)@).push(event@));
}

/// Renders the outcome of an execution as the model is to see it.
pub fn render_execution(outcome: &Result<Output, String>) -> (s: String)
    ensures
        s@ == rendered(outcome_view(*outcome)),
{
    match outcome {
        Err(e) => {
            let mut s = String::from_str("Error: ");
            s.append(e.as_str());
            s
        },
        Ok(out) => {
            let mut parts: Vec<String> = Vec::new();
            if out.output.len() > 0 {
                parts.push(join(&out.output, "\n"));
            }
            let shown = format_pyvalue(&out.value);
            if !text_eq(shown.as_str(), "None") {
                let mut part = String::from_str("=> ");
                part.append(shown.as_str());
                parts.push(part);
            }
            assert(views(parts@) =~= rendered_parts(out@));
            if parts.len() == 0 {
                String::from_str("Code executed successfully (no output).")
            } else {
                join(&parts, "\n")
            }
        },
    }
}

/// An agent: its configuration, its conversation, and where its loop
/// stands.
#[derive(Debug)]
pub struct Agent {
    config: AgentConfig,
    messages: Vec<Message>,
    finish_answer: Option<PyValue>,
    context_reads: Vec<String>,
    context_write: Option<String>,
    callbacks: AgentCallbacks,
    schema: Option<Json>,
    iterations: usize,
    mode: Mode,
    pending: Pending,
}

impl View for Agent {
    type V = AgentView;

    closed spec fn view(&self) -> AgentView {
        AgentView {
            config: self.config@,
            log: log_of(self.messages@),
            finish: opt_py(self.finish_answer),
            reads: views(self.context_reads@),
            write: opt_view(self.context_write),
            schema: opt_tree(self.schema),
            taken: self.callbacks.taken(),
            captured: match self.callbacks.captured_events {
                Some(events) => Some(events_of(events@)),
                None => None,
            },
            iterations: self.iterations as nat,
            mode: self.mode,
            pending: self.pending@,
        }
    }
}

impl Clone for Agent {
    /// A clone is an agent for a task of its own, as [`Agent::fork`] makes
    /// it: it shares no log and no finish slot with the agent it comes
    /// from.
    fn clone(&self) -> (agent: Agent)
        ensures
            agent@ == forked(self@),
    {
        self.fork()
    }
}

impl Agent {
    /// A new agent with the given configuration.
    pub fn new(config: AgentConfig) -> (agent: Agent)
        ensures
            agent@ == fresh(config@),
    {
        let agent = Agent {
            config,
            messages: Vec::new(),
            finish_answer: None,
            context_reads: Vec::new(),
            context_write: None,
            callbacks: AgentCallbacks::new(),
            schema: None,
            iterations: 0,
            mode: Mode::Run,
            pending: Pending::Idle,
        };
        assert(agent@ =~= fresh(config@));
        agent
    }

    /// A new agent for `model`, the rest of its configuration at the
    /// defaults.
    pub fn with_model(model: &str) -> (agent: Agent)
        ensures
            agent@ == fresh(crate::config::default_config(model@)),
    {
        Agent::new(AgentConfig::new(model))
    }

    /// An agent for a task of its own: the same configuration, bindings,
    /// schema and slots, with a fresh log and a fresh finish slot. What
    /// the one does is never seen by the other.
    pub fn fork(&self) -> (agent: Agent)
        ensures
            agent@ == forked(self@),
    {
        let mut reads: Vec<String> = Vec::new();
        let mut i: usize = 0;
        while i < self.context_reads.len()
            invariant
                0 <= i <= self.context_reads.len(),
                reads.len() == i,
                forall|j: int| 0 <= j < i ==> reads[j]@ == self.context_reads[j]@,
            decreases self.context_reads.len() - i,
        {
            reads.push(self.context_reads[i].clone());
            i += 1;
        }
        assert(views(reads@) =~= views(self.context_reads@));
        let mut callbacks = self.callbacks.copy();
        if callbacks.captured_events.is_some() {
            callbacks.captured_events = Some(Vec::new());
        }
        let schema = match &self.schema {
            Some(s) => Some(s.copy()),
            None => None,
        };
        let agent = Agent {
            config: self.config.copy(),
            messages: Vec::new(),
            finish_answer: None,
            context_reads: reads,
            context_write: crate::message::copy_opt(&self.context_write),
            callbacks,
            schema,
            iterations: 0,
            mode: Mode::Run,
            pending: Pending::Idle,
        };
        assert(agent@ =~= forked(self@));
        agent
    }

    /// The conversation so far.
    pub fn messages(&self) -> (log: &Vec<Message>)
        ensures
            log_of(log@) == self@.log,
    {
        &self.messages
    }

    /// The configuration.
    pub fn config(&self) -> (c: &AgentConfig)
        ensures
            c@ == self@.config,
    {
        &self.config
    }

    /// The value in the finish slot, if any.
    pub fn finish_value(&self) -> (v: Option<PyValue>)
        ensures
            opt_py(v) == self@.finish,
    {
        match &self.finish_answer {
            Some(v) => Some(v.copy()),
            None => None,
        }
    }

    /// The schema that a result has to meet, if one is attached.
    pub fn schema_doc(&self) -> (s: &Option<Json>)
        ensures
            opt_tree(*s) == self@.schema,
    {
        &self.schema
    }

    /// The keys that are read from the context store at the start of a run.
    pub fn context_reads(&self) -> (keys: &Vec<String>)
        ensures
            views(keys@) == self@.reads,
    {
        &self.context_reads
    }

    /// The key under which the result of a run is stored.
    pub fn context_write(&self) -> (key: &Option<String>)
        ensures
            opt_view(*key) == self@.write,
    {
        &self.context_write
    }

    /// Model calls made in the current loop.
    pub fn iterations(&self) -> (n: usize)
        ensures
            n == self@.iterations,
    {
        self.iterations
    }

    /// What the agent waits for.
    pub fn pending(&self) -> (p: &Pending)
        ensures
            p@ == self@.pending,
    {
        &self.pending
    }

    /// Whether the agent waits for the model's response.
    pub fn awaits_model(&self) -> (b: bool)
        ensures
            b == (self@.pending is Model),
    {
        match self.pending {
            Pending::Model => true,
            _ => false,
        }
    }

    /// Whether the agent waits for the outcome of an execution.
    pub fn awaits_execution(&self) -> (b: bool)
        ensures
            b == (self@.pending is Execution),
    {
        match self.pending {
            Pending::Execution { .. } => true,
            _ => false,
        }
    }

    /// Whether the agent waits for the validator's findings.
    pub fn awaits_validation(&self) -> (b: bool)
        ensures
            b == (self@.pending is Validation),
    {
        match self.pending {
            Pending::Validation { .. } => true,
            _ => false,
        }
    }

    /// Whether the agent waits for the decoding of a candidate.
    pub fn awaits_decode(&self) -> (b: bool)
        ensures
            b == (self@.pending is Decode),
    {
        match self.pending {
            Pending::Decode { .. } => true,
            _ => false,
        }
    }

    /// Whether the agent waits for the decoding of a plain-text response.
    pub fn awaits_text_decode(&self) -> (b: bool)
        ensures
            b == (self@.pending is TextDecode),
    {
        match self.pending {
            Pending::TextDecode => true,
            _ => false,
        }
    }

    /// Takes the slots of verbose logging, where `enabled`.
    pub fn verbose(self, enabled: bool) -> (agent: Agent)
        ensures
            agent@ == (if enabled {
                AgentView { taken: verbose_slots(), captured: None, ..self@ }
            } else {
                self@
            }),
    {
        let mut agent = self;
        if enabled {
            agent.callbacks = verbose_callbacks();
        }
        agent
    }

    /// Takes the callback slot for iteration start events.
    pub fn on_iteration_start(self) -> (agent: Agent)
        ensures
            agent@ == (AgentView { taken: self@.taken.insert(Slot::Kind(EventKind::IterationStart)), ..self@ }),
    {
        let mut agent = self;
        agent.callbacks.on_iteration_start = true;
        assert(agent@.taken =~= self@.taken.insert(Slot::Kind(EventKind::IterationStart)));
        agent
    }

    /// Takes the callback slot for model request events.
    pub fn on_llm_request(self) -> (agent: Agent)
        ensures
            agent@ == (AgentView { taken: self@.taken.insert(Slot::Kind(EventKind::LLMRequest)), ..self@ }),
    {
        let mut agent = self;
        agent.callbacks.on_llm_request = true;
        assert(agent@.taken =~= self@.taken.insert(Slot::Kind(EventKind::LLMRequest)));
        agent
    }

    /// Takes the callback slot for model response events.
    pub fn on_llm_response(self) -> (agent: Agent)
        ensures
            agent@ == (AgentView { taken: self@.taken.insert(Slot::Kind(EventKind::LLMResponse)), ..self@ }),
    {
        let mut agent = self;
        agent.callbacks.on_llm_response = true;
        assert(agent@.taken =~= self@.taken.insert(Slot::Kind(EventKind::LLMResponse)));
        agent
    }

    /// Takes the callback slot for thinking events.
    pub fn on_thinking(self) -> (agent: Agent)
        ensures
            agent@ == (AgentView { taken: self@.taken.insert(Slot::Kind(EventKind::Thinking)), ..self@ }),
    {
        let mut agent = self;
        agent.callbacks.on_thinking = true;
        assert(agent@.taken =~= self@.taken.insert(Slot::Kind(EventKind::Thinking)));
        agent
    }

    /// Takes the callback slot for code generation events.
    pub fn on_code_generated(self) -> (agent: Agent)
        ensures
            agent@ == (AgentView { taken: self@.taken.insert(Slot::Kind(EventKind::CodeGenerated)), ..self@ }),
    {
        let mut agent = self;
        agent.callbacks.on_code_generated = true;
        assert(agent@.taken =~= self@.taken.insert(Slot::Kind(EventKind::CodeGenerated)));
        agent
    }

    /// Takes the callback slot for code execution events.
    pub fn on_code_executed(self) -> (agent: Agent)
        ensures
            agent@ == (AgentView { taken: self@.taken.insert(Slot::Kind(EventKind::CodeExecuted)), ..self@ }),
    {
        let mut agent = self;
        agent.callbacks.on_code_executed = true;
        assert(agent@.taken =~= self@.taken.insert(Slot::Kind(EventKind::CodeExecuted)));
        agent
    }

    /// Takes the callback slot for tool call events.
    pub fn on_tool_call(self) -> (agent: Agent)
        ensures
            agent@ == (AgentView { taken: self@.taken.insert(Slot::Kind(EventKind::ToolCall)), ..self@ }),
    {
        let mut agent = self;
        agent.callbacks.on_tool_call = true;
        assert(agent@.taken =~= self@.taken.insert(Slot::Kind(EventKind::ToolCall)));
        agent
    }

    /// Takes the callback slot for tool result events.
    pub fn on_tool_result(self) -> (agent: Agent)
        ensures
            agent@ == (AgentView { taken: self@.taken.insert(Slot::Kind(EventKind::ToolResult)), ..self@ }),
    {
        let mut agent = self;
        agent.callbacks.on_tool_result = true;
        assert(agent@.taken =~= self@.taken.insert(Slot::Kind(EventKind::ToolResult)));
        agent
    }

    /// Takes the callback slot for finish events.
    pub fn on_finish(self) -> (agent: Agent)
        ensures
            agent@ == (AgentView { taken: self@.taken.insert(Slot::Kind(EventKind::Finish)), ..self@ }),
    {
        let mut agent = self;
        agent.callbacks.on_finish = true;
        assert(agent@.taken =~= self@.taken.insert(Slot::Kind(EventKind::Finish)));
        agent
    }

    /// Takes the callback slot for error events.
    pub fn on_error(self) -> (agent: Agent)
        ensures
            agent@ == (AgentView { taken: self@.taken.insert(Slot::Kind(EventKind::Error)), ..self@ }),
    {
        let mut agent = self;
        agent.callbacks.on_error = true;
        assert(agent@.taken =~= self@.taken.insert(Slot::Kind(EventKind::Error)));
        agent
    }

    /// Takes the catch-all callback slot, which every event reaches.
    pub fn on_event(self) -> (agent: Agent)
        ensures
            agent@ == (AgentView { taken: self@.taken.insert(Slot::Any), ..self@ }),
    {
        let mut agent = self;
        agent.callbacks.on_event = true;
        assert(agent@.taken =~= self@.taken.insert(Slot::Any));
        agent
    }

    /// Switches the capture of events on or off. Switching it on starts
    /// with nothing captured.
    pub fn capture_events(self, enabled: bool) -> (agent: Agent)
        ensures
            agent@ == (AgentView {
                captured: if enabled {
                    Some(Seq::empty())
                } else {
                    None
                },
                ..self@
            }),
    {
        let mut agent = self;
        if enabled {
            agent.callbacks.captured_events = Some(Vec::new());
            assert(agent@.captured->0 =~= Seq::<EventView>::empty());
        } else {
            agent.callbacks.captured_events = None;
        }
        agent
    }

    /// Takes the captured events, and leaves none behind.
    pub fn take_events(&mut self) -> (events: Vec<AgentEvent>)
        ensures
            events_of(events@) == (match old(self)@.captured {
                Some(c) => c,
                None => Seq::empty(),
            }),
            final(self)@ == (AgentView {
                captured: match old(self)@.captured {
                    Some(_) => Some(Seq::empty()),
                    None => None,
                },
                ..old(self)@
            }),
    {
        if self.callbacks.captured_events.is_some() {
            let mut taken: Option<Vec<AgentEvent>> = Some(Vec::new());
            core::mem::swap(&mut self.callbacks.captured_events, &mut taken);
            assert(self@.captured->0 =~= Seq::<EventView>::empty());
            taken.unwrap()
        } else {
            let events: Vec<AgentEvent> = Vec::new();
            assert(events_of(events@) =~= Seq::<EventView>::empty());
            events
        }
    }

    /// The slots that `event` reaches, in the order in which they are to
    /// be called.
    pub fn emit(&self, event: &AgentEvent) -> (slots: Vec<Slot>)
        ensures
            slots@ == (if self@.taken.contains(Slot::Kind(kind_of(event@))) {
                seq![Slot::Kind(kind_of(event@))]
            } else {
                Seq::<Slot>::empty()
            }) + (if self@.taken.contains(Slot::Any) {
                seq![Slot::Any]
            } else {
                Seq::<Slot>::empty()
            }),
    {
        let kind = event.kind();
        let mut slots: Vec<Slot> = Vec::new();
        if self.callbacks.is_listening(kind) {
            slots.push(Slot::Kind(kind));
        }
        if self.callbacks.on_event {
            slots.push(Slot::Any);
        }
        assert(slots@ =~= self.callbacks.reached(kind));
        slots
    }

    /// Attaches `schema` where `compiles`, and detaches any schema where
    /// not.
    pub fn attach_schema(&mut self, schema: Json, compiles: bool)
        ensures
            final(self)@ == (AgentView {
                schema: if compiles {
                    Some(schema@)
                } else {
                    None
                },
                ..old(self)@
            }),
    {
        if compiles {
            self.schema = Some(schema);
        } else {
            self.schema = None;
        }
    }

    /// Attaches a schema that results have to meet. A schema that the
    /// validator cannot compile is not attached, and results are then not
    /// validated.
    pub fn set_schema(&mut self, schema: Json)
        ensures
            final(self)@ == (AgentView {
                schema: if schema_compiles(schema@) {
                    Some(schema@)
                } else {
                    None
                },
                ..old(self)@
            }),
    {
        let compiles = schema_compile_error(&schema).is_none();
        self.attach_schema(schema, compiles);
    }

    /// Attaches a schema, as [`Agent::set_schema`] does.
    pub fn schema(self, schema: Json) -> (agent: Agent)
        ensures
            agent@ == (AgentView {
                schema: if schema_compiles(schema@) {
                    Some(schema@)
                } else {
                    None
                },
                ..self@
            }),
    {
        let mut agent = self;
        agent.set_schema(schema);
        agent
    }

    /// Detaches the schema.
    pub fn clear_schema(&mut self)
        ensures
            final(self)@ == (AgentView { schema: None, ..old(self)@ }),
    {
        self.schema = None;
    }

    /// Checks `value` against the attached schema. Without a schema every
    /// value passes. With one, the validator's findings decide: the value
    /// passes where there are none, and fails with the report of them
    /// where there are some.
    pub fn validate_against_schema(&self, value: &Json) -> (r: Result<(), String>)
        ensures
            self@.schema is None ==> r is Ok,
            self@.schema matches Some(s) ==> decoded_view(r) == schema_verdict(
                schema_issues(s, value@),
                s,
                value@,
            ),
    {
        match &self.schema {
            None => Ok(()),
            Some(schema) => {
                let issues = schema_findings(schema, value);
                let r = judge_schema(&issues, schema, value);
                assert(self@.schema == Some(schema@));
                r
            },
        }
    }

    /// Binds a key of the context store that is read at the start of a
    /// run.
    pub fn from_context(self, key: &str) -> (agent: Agent)
        ensures
            agent@ == (AgentView { reads: self@.reads.push(key@), ..self@ }),
    {
        let mut agent = self;
        agent.context_reads.push(String::from_str(key));
        assert(agent@.reads =~= self@.reads.push(key@));
        agent
    }

    /// Binds the key of the context store under which the result of a run
    /// is stored.
    pub fn to_context(self, key: &str) -> (agent: Agent)
        ensures
            agent@ == (AgentView { write: Some(key@), ..self@ }),
    {
        let mut agent = self;
        agent.context_write = Some(String::from_str(key));
        agent
    }

    /// The task as the model gets it: what the store holds under the bound
    /// keys, in front of the task.
    pub fn inject_context_into_task(&self, store: &Context, task: &str) -> (s: String)
        requires
            store.wf(),
        ensures
            s@ == injected(self@.reads, store@, task@),
    {
        store.inject(&self.context_reads, task)
    }

    /// Stores `result` under the bound key, if one is bound.
    pub fn save_to_context(&self, store: &mut Context, result: Json)
        requires
            old(store).wf(),
        ensures
            final(store).wf(),
            final(store)@ == (match self@.write {
                Some(key) => old(store)@.insert(key, result@),
                None => old(store)@,
            }),
    {
        match &self.context_write {
            Some(key) => {
                store.set(key.as_str(), result);
            },
            None => {},
        }
    }

    /// The system prompt, given the sandbox's description of its tools.
    pub fn system_prompt(&self, described: &str) -> (s: String)
        ensures
            s@ == system_prompt_text(self@.config.system, described@),
    {
        system_prompt(&self.config.system, described)
    }

    /// The code of the code block in `text`, if there is one.
    pub fn extract_code(&self, text: &str) -> (r: Option<String>)
        ensures
            opt_view(r) == code_block(text@),
    {
        extract_code(text)
    }

    /// The payload of the finish block in `text`, if there is one.
    pub fn extract_finish(&self, text: &str) -> (r: Option<String>)
        ensures
            opt_view(r) == finish_block(text@),
    {
        extract_finish(text)
    }

    /// The model's thinking in `text`: the content of the configured tag,
    /// if a tag is configured and the text holds it.
    pub fn extract_thinking(&self, text: &str) -> (r: Option<String>)
        ensures
            opt_view(r) == (match self@.config.thinking_tag {
                Some(tag) => thinking_block(text@, tag),
                None => None,
            }),
    {
        match &self.config.thinking_tag {
            Some(tag) => extract_thinking(text, tag.as_str()),
            None => None,
        }
    }

    /// Empties the log. The next conversation turn seeds it anew.
    pub fn clear(&mut self)
        ensures
            final(self)@ == (AgentView { log: Seq::empty(), ..old(self)@ }),
    {
        self.messages.clear();
        assert(self@.log =~= Seq::<MessageView>::empty());
    }

    /// Adds a turn to the log.
    fn say(&mut self, message: Message)
        ensures
            final(self)@ == (AgentView { log: old(self)@.log.push(message@), ..old(self)@ }),
    {
        self.messages.push(message);
        assert(self@.log =~= old(self)@.log.push(message@));
    }

    /// Captures the events of a step, where capture is on.
    fn note(&mut self, step: &Step)
        ensures
            (final(self)@, step@) == noted((old(self)@, step@)),
    {
        let ghost before = self@;
        match &mut self.callbacks.captured_events {
            Some(captured) => {
                let ghost start = events_of(captured@);
                let mut i: usize = 0;
                while i < step.events.len()
                    invariant
                        0 <= i <= step.events.len(),
                        events_of(captured@) == start + events_of(step.events@).take(i as int),
                    decreases step.events.len() - i,
                {
                    let ghost prior = captured@;
                    captured.push(step.events[i].copy());
                    assert(events_of(captured@) =~= events_of(prior).push(step.events[i as int]@));
                    assert(events_of(step.events@).take(i + 1) =~= events_of(step.events@).take(
                        i as int,
                    ).push(step.events[i as int]@));
                    i += 1;
                }
                assert(events_of(step.events@).take(step.events.len() as int) =~= events_of(
                    step.events@,
                ));
            },
            None => {},
        }
        assert(self@ =~= noted((before, step@)).0);
    }

    /// The top of the loop.
    fn next_turn(&mut self, events: Vec<AgentEvent>) -> (step: Step)
        ensures
            (final(self)@, step@) == next_turn(old(self)@, events_of(events@)),
    {
        let mut events = events;
        let max = self.config.max_iterations;
        if self.iterations >= max {
            let mut message = String::from_str("Max iterations (");
            push_decimal(&mut message, max as u64);
            message.append(") reached");
            add_event(&mut events, AgentEvent::Error { message });
            self.pending = Pending::Done;
            Step { events, action: Action::Failed { error: Error::MaxIterations(max) } }
        } else {
            self.iterations = self.iterations + 1;
            self.finish_answer = None;
            self.pending = Pending::Model;
            add_event(
                &mut events,
                AgentEvent::IterationStart { iteration: self.iterations, max_iterations: max },
            );
            add_event(&mut events, AgentEvent::LLMRequest { message_count: self.messages.len() });
            Step { events, action: Action::CallModel }
        }
    }

    /// The one way to ask the model again.
    fn retry(&mut self, events: Vec<AgentEvent>, problem: String, feedback: String) -> (step:
        Step)
        ensures
            (final(self)@, step@) == retry(old(self)@, events_of(events@), problem@, feedback@),
    {
        let mut events = events;
        add_event(&mut events, AgentEvent::Error { message: problem.clone() });
        if self.iterations >= self.config.max_iterations {
            self.pending = Pending::Done;
            Step { events, action: Action::Failed { error: Error::Deserialization(problem) } }
        } else {
            self.finish_answer = None;
            self.say(Message::user(feedback));
            self.next_turn(events)
        }
    }

    /// A candidate is at hand.
    fn candidate_found(&mut self, events: Vec<AgentEvent>, candidate: Json, origin: Origin) -> (step:
        Step)
        ensures
            (final(self)@, step@) == candidate_found(
                old(self)@,
                events_of(events@),
                candidate@,
                origin@,
            ),
    {
        let handed = candidate.copy();
        if self.schema.is_some() {
            self.pending = Pending::Validation { candidate, origin };
            Step { events, action: Action::Validate { candidate: handed } }
        } else {
            self.pending = Pending::Decode { candidate, origin };
            Step { events, action: Action::Decode { candidate: handed } }
        }
    }

    /// The corrective turn for a finish block that does not parse or
    /// decode.
    fn block_feedback(error: &str, payload: &str) -> (s: String)
        ensures
            s@ == block_feedback(error@, payload@),
    {
        let mut s = String::from_str("Error parsing your <finish> block:\n\n");
        s.append(error);
        s.append("\n\nYour output:\n```\n");
        s.append(payload);
        s.append("\n```\n\nPlease fix and try again.");
        s
    }

    /// Asks the model again after a finish block that does not parse or
    /// decode.
    fn retry_block(&mut self, events: Vec<AgentEvent>, error: &str, payload: &str) -> (step: Step)
        ensures
            (final(self)@, step@) == retry(
                old(self)@,
                events_of(events@),
                block_problem(error@),
                block_feedback(error@, payload@),
            ),
    {
        let mut problem = String::from_str("Invalid JSON in <finish> block: ");
        problem.append(error);
        let feedback = Agent::block_feedback(error, payload);
        self.retry(events, problem, feedback)
    }

    /// Starts a run on `task`. `described` is the sandbox's description of
    /// its tools, for the system prompt. `store` is the context store of
    /// the agent, if it has one: what it holds under the bound keys now is
    /// put in front of the task, and is not read again during the run.
    pub fn run(&mut self, described: &str, store: Option<&Context>, task: &str) -> (step: Step)
        requires
            store matches Some(s) ==> s.wf(),
        ensures
            (final(self)@, step@) == noted(
                run_begun(
                    old(self)@,
                    system_prompt_text(old(self)@.config.system, described@),
                    seen_task(old(self)@.reads, held(store), task@),
                ),
            ),
    {
        let prompt = self.system_prompt(described);
        let task = match store {
            Some(s) => self.inject_context_into_task(s, task),
            None => String::from_str(task),
        };
        self.messages = Vec::new();
        self.messages.push(Message::system(prompt));
        self.messages.push(Message::user(task));
        assert(log_of(self.messages@) =~= seq![
            turn(Role::System, prompt@),
            turn(Role::User, task@),
        ]);
        self.finish_answer = None;
        self.iterations = 0;
        self.mode = Mode::Run;
        self.pending = Pending::Idle;
        let events: Vec<AgentEvent> = Vec::new();
        assert(events_of(events@) =~= Seq::<EventView>::empty());
        let step = self.next_turn(events);
        self.note(&step);
        step
    }

    /// Starts a conversation turn on `message`. `described` is the
    /// sandbox's description of its tools, for the system prompt of a log
    /// that is still empty.
    pub fn chat(&mut self, described: &str, message: &str) -> (step: Step)
        ensures
            (final(self)@, step@) == noted(
                chat_begun(
                    old(self)@,
                    system_prompt_text(old(self)@.config.system, described@),
                    message@,
                ),
            ),
    {
        if self.messages.len() == 0 {
            let prompt = self.system_prompt(described);
            self.messages.push(Message::system(prompt));
            assert(log_of(self.messages@) =~= seq![turn(Role::System, prompt@)]);
        }
        let ghost seeded = log_of(self.messages@);
        self.messages.push(Message::user(String::from_str(message)));
        assert(log_of(self.messages@) =~= seeded.push(turn(Role::User, message@)));
        self.finish_answer = None;
        self.iterations = 0;
        self.mode = Mode::Chat;
        self.pending = Pending::Idle;
        let events: Vec<AgentEvent> = Vec::new();
        assert(events_of(events@) =~= Seq::<EventView>::empty());
        let step = self.next_turn(events);
        self.note(&step);
        step
    }

    /// Reads the finish block of a response.
    fn block_read(
        &mut self,
        events: Vec<AgentEvent>,
        payload: String,
        parsed: Result<Json, String>,
    ) -> (step: Step)
        ensures
            (final(self)@, step@) == block_read(
                old(self)@,
                events_of(events@),
                payload@,
                parsed_view(parsed),
            ),
    {
        match self.mode {
            Mode::Run => match parsed {
                Ok(candidate) => {
                    self.finish_answer = Some(json_to_pyvalue(&candidate));
                    self.candidate_found(events, candidate, Origin::Block { payload })
                },
                Err(e) => self.retry_block(events, e.as_str(), payload.as_str()),
            },
            Mode::Chat => {
                let mut events = events;
                add_event(&mut events, AgentEvent::Finish { value: PyValue::Str(payload.clone()) });
                self.finish_answer = Some(PyValue::Str(payload.clone()));
                self.pending = Pending::Done;
                Step { events, action: Action::Reply { text: payload } }
            },
        }
    }

    /// Reports the model's response, together with what the JSON parser
    /// makes of the payload of its finish block. Where the response holds
    /// no finish block, `parsed` does not count.
    pub fn on_reply_read(&mut self, text: String, parsed: Result<Json, String>) -> (step: Step)
        requires
            old(self)@.pending is Model,
        ensures
            (final(self)@, step@) == noted(replied_with(old(self)@, text@, parsed_view(parsed))),
    {
        let mut events: Vec<AgentEvent> = Vec::new();
        assert(events_of(events@) =~= Seq::<EventView>::empty());
        add_event(&mut events, AgentEvent::LLMResponse { content: text.clone(), tokens_used: None });
        match self.extract_thinking(text.as_str()) {
            Some(thought) => {
                add_event(&mut events, AgentEvent::Thinking { content: thought });
            },
            None => {},
        }
        assert(events_of(events@) =~= reply_events(old(self)@, text@));
        self.say(Message::assistant(text.clone()));
        let step = match extract_finish(text.as_str()) {
            Some(payload) => self.block_read(events, payload, parsed),
            None => match extract_code(text.as_str()) {
                Some(code) => {
                    add_event(&mut events, AgentEvent::CodeGenerated { code: code.clone() });
                    self.pending = Pending::Execution { code: code.clone() };
                    Step { events, action: Action::Execute { code } }
                },
                None => match self.mode {
                    Mode::Run => {
                        self.pending = Pending::TextDecode;
                        Step { events, action: Action::DecodeText { text } }
                    },
                    Mode::Chat => {
                        self.pending = Pending::Done;
                        Step { events, action: Action::Reply { text } }
                    },
                },
            },
        };
        self.note(&step);
        step
    }

    /// Reports the model's response.
    pub fn on_model_reply(&mut self, text: String) -> (step: Step)
        requires
            old(self)@.pending is Model,
        ensures
            (final(self)@, step@) == noted(replied(old(self)@, text@)),
    {
        let parsed = match extract_finish(text.as_str()) {
            Some(payload) => Json::parse(payload.as_str()),
            None => Err(String::new()),
        };
        self.on_reply_read(text, parsed)
    }

    /// Reports that the model call failed, with the client's message.
    pub fn on_model_failed(&mut self, message: String) -> (step: Step)
        requires
            old(self)@.pending is Model,
        ensures
            (final(self)@, step@) == noted(model_failed(old(self)@, message@)),
    {
        self.pending = Pending::Done;
        let events: Vec<AgentEvent> = Vec::new();
        assert(events_of(events@) =~= Seq::<EventView>::empty());
        let step = Step { events, action: Action::Failed { error: Error::Llm(message) } };
        self.note(&step);
        step
    }

    /// Reports the outcome of the execution, and what the finish
    /// capability stored while the code ran, if it was called.
    pub fn on_executed(&mut self, outcome: Result<Output, String>, captured: Option<PyValue>) -> (step:
        Step)
        requires
            old(self)@.pending is Execution,
        ensures
            (final(self)@, step@) == noted(
                executed(
                    old(self)@,
                    old(self)@.pending->Execution_code,
                    outcome_view(outcome),
                    opt_py(captured),
                ),
            ),
    {
        let output = render_execution(&outcome);
        let success = !text_starts_with(output.as_str(), "Error:");
        let code = match &self.pending {
            Pending::Execution { code } => code.clone(),
            _ => unreached(),
        };
        let mut events: Vec<AgentEvent> = Vec::new();
        assert(events_of(events@) =~= Seq::<EventView>::empty());
        add_event(
            &mut events,
            AgentEvent::CodeExecuted { code, output: output.clone(), success },
        );
        let finished = text_contains(output.as_str(), FINISH_MARKER);
        let candidate = match &captured {
            Some(value) => Some(pyvalue_to_json(value)),
            None => None,
        };
        let answer = match &captured {
            Some(value) => Some(pyvalue_to_string(value)),
            None => None,
        };
        let shown = match &captured {
            Some(value) => Some(value.copy()),
            None => None,
        };
        self.finish_answer = captured;
        let step = if finished {
            match (candidate, answer, shown) {
                (Some(candidate), Some(answer), Some(value)) => match self.mode {
                    Mode::Run => self.candidate_found(events, candidate, Origin::Tool),
                    Mode::Chat => {
                        add_event(&mut events, AgentEvent::Finish { value });
                        self.pending = Pending::Done;
                        Step { events, action: Action::Reply { text: answer } }
                    },
                },
                _ => match self.mode {
                    Mode::Run => {
                        self.pending = Pending::Done;
                        Step {
                            events,
                            action: Action::Failed {
                                error: Error::Deserialization(
                                    String::from_str("No finish value captured"),
                                ),
                            },
                        }
                    },
                    Mode::Chat => {
                        self.pending = Pending::Done;
                        Step { events, action: Action::Reply { text: String::new() } }
                    },
                },
            }
        } else {
            let mut shown_output = String::from_str("Execution output:\n```\n");
            shown_output.append(output.as_str());
            shown_output.append("\n```");
            self.say(Message::user(shown_output));
            self.next_turn(events)
        };
        self.note(&step);
        step
    }

    /// Reports the validator's findings on the candidate.
    pub fn on_validated(&mut self, issues: Vec<SchemaIssue>) -> (step: Step)
        requires
            old(self)@.pending is Validation,
        ensures
            (final(self)@, step@) == noted(
                validated(
                    old(self)@,
                    old(self)@.pending->Validation_candidate,
                    old(self)@.pending->Validation_origin,
                    issues_of(issues@),
                ),
            ),
    {
        let mut pending = Pending::Done;
        core::mem::swap(&mut self.pending, &mut pending);
        let events: Vec<AgentEvent> = Vec::new();
        assert(events_of(events@) =~= Seq::<EventView>::empty());
        let step = match pending {
            Pending::Validation { candidate, origin } => {
                let verdict = match &self.schema {
                    Some(schema) => judge_schema(&issues, schema, &candidate),
                    None => Ok(()),
                };
                match verdict {
                    Err(report) => {
                        self.pending = Pending::Validation { candidate, origin };
                        let mut problem = String::from_str("Schema validation failed: ");
                        problem.append(report.as_str());
                        let mut feedback = String::from_str(
                            "Your output did not match the expected schema.\n\n",
                        );
                        feedback.append(report.as_str());
                        feedback.append("\n\nPlease fix and try again.");
                        self.retry(events, problem, feedback)
                    },
                    Ok(_) => {
                        let handed = candidate.copy();
                        self.pending = Pending::Decode { candidate, origin };
                        Step { events, action: Action::Decode { candidate: handed } }
                    },
                }
            },
            _ => unreached(),
        };
        self.note(&step);
        step
    }

    /// Reports whether the candidate decoded into the result type; where
    /// it did not, with the decoder's message.
    pub fn on_decoded(&mut self, result: Result<(), String>) -> (step: Step)
        requires
            old(self)@.pending is Decode,
        ensures
            (final(self)@, step@) == noted(
                decoded(
                    old(self)@,
                    old(self)@.pending->Decode_candidate,
                    old(self)@.pending->Decode_origin,
                    decoded_view(result),
                ),
            ),
    {
        let mut pending = Pending::Done;
        core::mem::swap(&mut self.pending, &mut pending);
        let mut events: Vec<AgentEvent> = Vec::new();
        assert(events_of(events@) =~= Seq::<EventView>::empty());
        let step = match pending {
            Pending::Decode { candidate, origin } => match result {
                Ok(_) => {
                    let value = match (&origin, &self.finish_answer) {
                        (Origin::Tool, Some(value)) => value.copy(),
                        _ => json_to_pyvalue(&candidate),
                    };
                    add_event(&mut events, AgentEvent::Finish { value });
                    Step { events, action: Action::Finished }
                },
                Err(e) => {
                    let step = match &origin {
                        Origin::Block { payload } => {
                            let payload = payload.clone();
                            self.pending = Pending::Decode { candidate, origin };
                            self.retry_block(events, e.as_str(), payload.as_str())
                        },
                        Origin::Tool => {
                            let shown = candidate.to_compact();
                            self.pending = Pending::Decode { candidate, origin };
                            let mut problem = String::from_str("Invalid finish() output: ");
                            problem.append(e.as_str());
                            let mut feedback = String::from_str(
                                "Error parsing your finish() output:\n\n",
                            );
                            feedback.append(e.as_str());
                            feedback.append("\n\nYour output:\n```\n");
                            feedback.append(shown.as_str());
                            feedback.append("\n```\n\nPlease fix and try again.");
                            self.retry(events, problem, feedback)
                        },
                    };
                    step
                },
            },
            _ => unreached(),
        };
        self.note(&step);
        step
    }

    /// Does what a step asks for where that needs no work of the caller's:
    /// where the step asks for validation, the validator is asked for its
    /// findings on the candidate that awaits validation, and they are
    /// reported as [`Agent::on_validated`] reports them. Any other step is
    /// handed back as it is. The step that comes out never asks for
    /// validation, and holds the events of both.
    pub fn advance(&mut self, step: Step) -> (next: Step)
        requires
            step@.action is Validate ==> old(self)@.pending is Validation,
        ensures
            next@.action !is Validate,
            step@.action !is Validate ==> final(self)@ == old(self)@ && next@ == step@,
            step@.action is Validate ==> {
                &&& final(self)@ == noted(checked(old(self)@)).0
                &&& next@.events == step@.events + noted(checked(old(self)@)).1.events
                &&& next@.action == noted(checked(old(self)@)).1.action
            },
    {
        let Step { events, action } = step;
        match action {
            Action::Validate { .. } => {
                let issues = match (&self.schema, &self.pending) {
                    (Some(schema), Pending::Validation { candidate, .. }) => schema_findings(
                        schema,
                        candidate,
                    ),
                    _ => Vec::new(),
                };
                let ghost before = self@;
                assert(issues_of(issues@) =~= pending_findings(before));
                let rest = self.on_validated(issues);
                let mut events = events;
                let mut more = rest.events;
                let ghost first = events_of(events@);
                let ghost second = events_of(more@);
                events.append(&mut more);
                assert(events_of(events@) =~= first + second);
                let next = Step { events, action: rest.action };
                proof {
                    lemma_validated_goes_on(
                        before,
                        before.pending->Validation_candidate,
                        before.pending->Validation_origin,
                        pending_findings(before),
                    );
                }
                next
            },
            other => Step { events, action: other },
        }
    }

    /// Reports whether the plain text of the response decoded into the
    /// result type; where it did not, with the decoder's message.
    pub fn on_text_decoded(&mut self, result: Result<(), String>) -> (step: Step)
        requires
            old(self)@.pending is TextDecode,
        ensures
            (final(self)@, step@) == noted(text_decoded(old(self)@, decoded_view(result))),
    {
        self.pending = Pending::Done;
        let events: Vec<AgentEvent> = Vec::new();
        assert(events_of(events@) =~= Seq::<EventView>::empty());
        let step = Step {
            events,
            action: match result {
                Ok(_) => Action::Finished,
                Err(e) => Action::Failed { error: Error::Deserialization(e) },
            },
        };
        self.note(&step);
        step
    }
}

} // verus!
