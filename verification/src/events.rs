//! Events of a run, and the callback slots that observe them.
//!
//! The library decides which slots an event reaches and in which order; the
//! callbacks themselves are the caller's and are invoked by the caller.

use vstd::prelude::*;
use crate::value::{PyTree, PyValue};

verus! {

/// An event emitted during a run.
#[derive(Debug, PartialEq)]
pub enum AgentEvent {
    /// A new iteration starts.
    IterationStart { iteration: usize, max_iterations: usize },
    /// The model is about to be called.
    LLMRequest { message_count: usize },
    /// The model responded.
    LLMResponse { content: String, tokens_used: Option<usize> },
    /// The model's thinking, taken from the configured tag.
    Thinking { content: String },
    /// The model wrote code to execute.
    CodeGenerated { code: String },
    /// Code was executed in the sandbox.
    CodeExecuted { code: String, output: String, success: bool },
    /// A tool was called.
    ToolCall { name: String, args: Vec<PyValue> },
    /// A tool returned a result.
    ToolResult { name: String, result: PyValue },
    /// The run finished with this value.
    Finish { value: PyValue },
    /// An error occurred.
    Error { message: String },
}

/// The mathematical value of an [`AgentEvent`].
pub enum EventView {
    IterationStart { iteration: nat, max_iterations: nat },
    LLMRequest { message_count: nat },
    LLMResponse { content: Seq<char>, tokens_used: Option<usize> },
    Thinking { content: Seq<char> },
    CodeGenerated { code: Seq<char> },
    CodeExecuted { code: Seq<char>, output: Seq<char>, success: bool },
    ToolCall { name: Seq<char>, args: Seq<PyTree> },
    ToolResult { name: Seq<char>, result: PyTree },
    Finish { value: PyTree },
    Error { message: Seq<char> },
}

/// The kind of an event: one per callback slot.
#[derive(Clone, Copy, Debug, PartialEq, Eq, Structural)]
pub enum EventKind {
    IterationStart,
    LLMRequest,
    LLMResponse,
    Thinking,
    CodeGenerated,
    CodeExecuted,
    ToolCall,
    ToolResult,
    Finish,
    Error,
}

/// The views of a list of values, in order.
pub open spec fn trees_of(values: Seq<PyValue>) -> Seq<PyTree> {
    Seq::new(values.len(), |i: int| values[i]@)
}

impl View for AgentEvent {
    type V = EventView;

    open spec fn view(&self) -> EventView {
        match self {
            AgentEvent::IterationStart { iteration, max_iterations } => EventView::IterationStart {
                iteration: *iteration as nat,
                max_iterations: *max_iterations as nat,
            },
            AgentEvent::LLMRequest { message_count } => EventView::LLMRequest {
                message_count: *message_count as nat,
            },
            AgentEvent::LLMResponse { content, tokens_used } => EventView::LLMResponse {
                content: content@,
                tokens_used: *tokens_used,
            },
            AgentEvent::Thinking { content } => EventView::Thinking { content: content@ },
            AgentEvent::CodeGenerated { code } => EventView::CodeGenerated { code: code@ },
            AgentEvent::CodeExecuted { code, output, success } => EventView::CodeExecuted {
                code: code@,
                output: output@,
                success: *success,
            },
            AgentEvent::ToolCall { name, args } => EventView::ToolCall {
                name: name@,
                args: trees_of(args@),
            },
            AgentEvent::ToolResult { name, result } => EventView::ToolResult {
                name: name@,
                result: result@,
            },
            AgentEvent::Finish { value } => EventView::Finish { value: value@ },
            AgentEvent::Error { message } => EventView::Error { message: message@ },
        }
    }
}

/// The kind of an event.
pub open spec fn kind_of(e: EventView) -> EventKind {
    match e {
        EventView::IterationStart { .. } => EventKind::IterationStart,
        EventView::LLMRequest { .. } => EventKind::LLMRequest,
        EventView::LLMResponse { .. } => EventKind::LLMResponse,
        EventView::Thinking { .. } => EventKind::Thinking,
        EventView::CodeGenerated { .. } => EventKind::CodeGenerated,
        EventView::CodeExecuted { .. } => EventKind::CodeExecuted,
        EventView::ToolCall { .. } => EventKind::ToolCall,
        EventView::ToolResult { .. } => EventKind::ToolResult,
        EventView::Finish { .. } => EventKind::Finish,
        EventView::Error { .. } => EventKind::Error,
    }
}

/// The views of a list of events, in order.
pub open spec fn events_of(events: Seq<AgentEvent>) -> Seq<EventView> {
    Seq::new(events.len(), |i: int| events[i]@)
}

impl AgentEvent {
    /// The kind of the event.
    pub fn kind(&self) -> (k: EventKind)
        ensures
            k == kind_of(self@),
    {
        match self {
            AgentEvent::IterationStart { .. } => EventKind::IterationStart,
            AgentEvent::LLMRequest { .. } => EventKind::LLMRequest,
            AgentEvent::LLMResponse { .. } => EventKind::LLMResponse,
            AgentEvent::Thinking { .. } => EventKind::Thinking,
            AgentEvent::CodeGenerated { .. } => EventKind::CodeGenerated,
            AgentEvent::CodeExecuted { .. } => EventKind::CodeExecuted,
            AgentEvent::ToolCall { .. } => EventKind::ToolCall,
            AgentEvent::ToolResult { .. } => EventKind::ToolResult,
            AgentEvent::Finish { .. } => EventKind::Finish,
            AgentEvent::Error { .. } => EventKind::Error,
        }
    }

    /// A copy of the event.
    pub fn copy(&self) -> (e: AgentEvent)
        ensures
            e@ == self@,
    {
        match self {
            AgentEvent::IterationStart { iteration, max_iterations } => AgentEvent::IterationStart {
                iteration: *iteration,
                max_iterations: *max_iterations,
            },
            AgentEvent::LLMRequest { message_count } => AgentEvent::LLMRequest {
                message_count: *message_count,
            },
            AgentEvent::LLMResponse { content, tokens_used } => AgentEvent::LLMResponse {
                content: content.clone(),
                tokens_used: *tokens_used,
            },
            AgentEvent::Thinking { content } => AgentEvent::Thinking { content: content.clone() },
            AgentEvent::CodeGenerated { code } => AgentEvent::CodeGenerated { code: code.clone() },
            AgentEvent::CodeExecuted { code, output, success } => AgentEvent::CodeExecuted {
                code: code.clone(),
                output: output.clone(),
                success: *success,
            },
            AgentEvent::ToolCall { name, args } => {
                let mut out: Vec<PyValue> = Vec::new();
                let mut i: usize = 0;
                while i < args.len()
                    invariant
                        0 <= i <= args.len(),
                        out.len() == i,
                        forall|j: int| 0 <= j < i ==> out[j]@ == args[j]@,
                    decreases args.len() - i,
                {
                    out.push(args[i].copy());
                    i += 1;
                }
                assert(trees_of(out@) =~= trees_of(args@));
                AgentEvent::ToolCall { name: name.clone(), args: out }
            },
            AgentEvent::ToolResult { name, result } => AgentEvent::ToolResult {
                name: name.clone(),
                result: result.copy(),
            },
            AgentEvent::Finish { value } => AgentEvent::Finish { value: value.copy() },
            AgentEvent::Error { message } => AgentEvent::Error { message: message.clone() },
        }
    }
}

/// A callback slot: the one for a kind of event, or the catch-all.
#[derive(Clone, Copy, Debug, PartialEq, Eq, Structural)]
pub enum Slot {
    /// The slot for one kind of event.
    Kind(EventKind),
    /// The catch-all slot, reached by every event.
    Any,
}

/// Which callback slots are taken, and the events captured so far where
/// capture is switched on.
#[derive(Debug, PartialEq)]
pub struct AgentCallbacks {
    pub on_iteration_start: bool,
    pub on_llm_request: bool,
    pub on_llm_response: bool,
    pub on_thinking: bool,
    pub on_code_generated: bool,
    pub on_code_executed: bool,
    pub on_tool_call: bool,
    pub on_tool_result: bool,
    pub on_finish: bool,
    pub on_error: bool,
    /// The catch-all slot.
    pub on_event: bool,
    /// Captured events, where capture is switched on.
    pub captured_events: Option<Vec<AgentEvent>>,
}

impl AgentCallbacks {
    /// Whether the slot for `kind` is taken.
    pub open spec fn listens(&self, kind: EventKind) -> bool {
        match kind {
            EventKind::IterationStart => self.on_iteration_start,
            EventKind::LLMRequest => self.on_llm_request,
            EventKind::LLMResponse => self.on_llm_response,
            EventKind::Thinking => self.on_thinking,
            EventKind::CodeGenerated => self.on_code_generated,
            EventKind::CodeExecuted => self.on_code_executed,
            EventKind::ToolCall => self.on_tool_call,
            EventKind::ToolResult => self.on_tool_result,
            EventKind::Finish => self.on_finish,
            EventKind::Error => self.on_error,
        }
    }

    /// The set of slots that are taken.
    pub open spec fn taken(&self) -> Set<Slot> {
        Self::slots_of(
            self.on_iteration_start,
            self.on_llm_request,
            self.on_llm_response,
            self.on_thinking,
            self.on_code_generated,
            self.on_code_executed,
            self.on_tool_call,
            self.on_tool_result,
            self.on_finish,
            self.on_error,
            self.on_event,
        )
    }

    /// The set of slots for which the flag is set, the flags given in the
    /// order of the fields.
    pub open spec fn slots_of(
        iteration_start: bool,
        llm_request: bool,
        llm_response: bool,
        thinking: bool,
        code_generated: bool,
        code_executed: bool,
        tool_call: bool,
        tool_result: bool,
        finish: bool,
        error: bool,
        any: bool,
    ) -> Set<Slot> {
        Set::new(
            |s: Slot|
                match s {
                    Slot::Kind(EventKind::IterationStart) => iteration_start,
                    Slot::Kind(EventKind::LLMRequest) => llm_request,
                    Slot::Kind(EventKind::LLMResponse) => llm_response,
                    Slot::Kind(EventKind::Thinking) => thinking,
                    Slot::Kind(EventKind::CodeGenerated) => code_generated,
                    Slot::Kind(EventKind::CodeExecuted) => code_executed,
                    Slot::Kind(EventKind::ToolCall) => tool_call,
                    Slot::Kind(EventKind::ToolResult) => tool_result,
                    Slot::Kind(EventKind::Finish) => finish,
                    Slot::Kind(EventKind::Error) => error,
                    Slot::Any => any,
                },
        )
    }

    /// The slots that an event of `kind` reaches, in the order in which
    /// they are called: the slot of its kind, then the catch-all.
    pub open spec fn reached(&self, kind: EventKind) -> Seq<Slot> {
        let specific = if self.listens(kind) {
            seq![Slot::Kind(kind)]
        } else {
            Seq::<Slot>::empty()
        };
        let any = if self.on_event {
            seq![Slot::Any]
        } else {
            Seq::<Slot>::empty()
        };
        specific + any
    }

    /// The events captured so far; none where capture is off.
    pub open spec fn captured(&self) -> Seq<EventView> {
        match self.captured_events {
            Some(events) => events_of(events@),
            None => Seq::<EventView>::empty(),
        }
    }

    /// No slot taken, capture off.
    pub fn new() -> (c: AgentCallbacks)
        ensures
            c.taken() == Set::<Slot>::empty(),
            c.captured_events is None,
    {
        assert(AgentCallbacks::slots_of(
            false,
            false,
            false,
            false,
            false,
            false,
            false,
            false,
            false,
            false,
            false,
        ) =~= Set::<Slot>::empty());
        AgentCallbacks {
            on_iteration_start: false,
            on_llm_request: false,
            on_llm_response: false,
            on_thinking: false,
            on_code_generated: false,
            on_code_executed: false,
            on_tool_call: false,
            on_tool_result: false,
            on_finish: false,
            on_error: false,
            on_event: false,
            captured_events: None,
        }
    }

    /// Whether the slot for `kind` is taken.
    pub fn is_listening(&self, kind: EventKind) -> (b: bool)
        ensures
            b == self.listens(kind),
    {
        match kind {
            EventKind::IterationStart => self.on_iteration_start,
            EventKind::LLMRequest => self.on_llm_request,
            EventKind::LLMResponse => self.on_llm_response,
            EventKind::Thinking => self.on_thinking,
            EventKind::CodeGenerated => self.on_code_generated,
            EventKind::CodeExecuted => self.on_code_executed,
            EventKind::ToolCall => self.on_tool_call,
            EventKind::ToolResult => self.on_tool_result,
            EventKind::Finish => self.on_finish,
            EventKind::Error => self.on_error,
        }
    }

    /// Emits an event: captures it where capture is on, and names the slots
    /// to call, in order. Nothing else changes.
    pub fn emit(&mut self, event: &AgentEvent) -> (slots: Vec<Slot>)
        ensures
            slots@ == old(self).reached(kind_of(event@)),
            final(self).taken() == old(self).taken(),
            final(self).captured_events is Some == old(self).captured_events is Some,
            old(self).captured_events is Some ==> final(self).captured() == old(
                self,
            ).captured().push(event@),
    {
        let ghost before = self.captured();
        match &mut self.captured_events {
            Some(events) => {
                let ghost prior = events@;
                events.push(event.copy());
                assert(events_of(events@) =~= events_of(prior).push(event@));
            },
            None => {},
        }
        let kind = event.kind();
        let mut slots: Vec<Slot> = Vec::new();
        if self.is_listening(kind) {
            slots.push(Slot::Kind(kind));
        }
        if self.on_event {
            slots.push(Slot::Any);
        }
        assert(slots@ =~= old(self).reached(kind));
        slots
    }

    /// A copy of the slots, with the events captured so far.
    pub fn copy(&self) -> (c: AgentCallbacks)
        ensures
            c.taken() == self.taken(),
            c.captured_events is Some == self.captured_events is Some,
            c.captured() == self.captured(),
    {
        let captured = match &self.captured_events {
            Some(events) => {
                let mut out: Vec<AgentEvent> = Vec::new();
                let mut i: usize = 0;
                while i < events.len()
                    invariant
                        0 <= i <= events.len(),
                        out.len() == i,
                        forall|j: int| 0 <= j < i ==> out[j]@ == events[j]@,
                    decreases events.len() - i,
                {
                    out.push(events[i].copy());
                    i += 1;
                }
                assert(events_of(out@) =~= events_of(events@));
                Some(out)
            },
            None => None,
        };
        AgentCallbacks {
            on_iteration_start: self.on_iteration_start,
            on_llm_request: self.on_llm_request,
            on_llm_response: self.on_llm_response,
            on_thinking: self.on_thinking,
            on_code_generated: self.on_code_generated,
            on_code_executed: self.on_code_executed,
            on_tool_call: self.on_tool_call,
            on_tool_result: self.on_tool_result,
            on_finish: self.on_finish,
            on_error: self.on_error,
            on_event: self.on_event,
            captured_events: captured,
        }
    }
}

/// The slots that verbose logging takes: every kind but the model request,
/// the thinking and the tool result, and not the catch-all.
pub open spec fn verbose_slots() -> Set<Slot> {
    AgentCallbacks::slots_of(
        true,
        false,
        true,
        false,
        true,
        true,
        true,
        false,
        true,
        true,
        false,
    )
}

/// The slots of verbose logging, taken; capture off.
pub fn verbose_callbacks() -> (c: AgentCallbacks)
    ensures
        c.taken() == verbose_slots(),
        c.captured_events is None,
{
    AgentCallbacks {
        on_iteration_start: true,
        on_llm_request: false,
        on_llm_response: true,
        on_thinking: false,
        on_code_generated: true,
        on_code_executed: true,
        on_tool_call: true,
        on_tool_result: false,
        on_finish: true,
        on_error: true,
        on_event: false,
        captured_events: None,
    }
}

} // verus!
