use dragen::verbose::{preview_of, split_lines};
use dragen::{
    verbose_callbacks, verbose_line, Agent, AgentCallbacks, AgentConfig, AgentEvent, EventKind,
    PyValue, Slot,
};

fn error_event() -> AgentEvent {
    AgentEvent::Error { message: "boom".to_string() }
}

#[test]
fn event_reaches_its_own_slot_then_the_catch_all() {
    let mut slots = AgentCallbacks::new();
    assert_eq!(slots.emit(&error_event()), Vec::new());
    slots.on_event = true;
    assert_eq!(slots.emit(&error_event()), vec![Slot::Any]);
    slots.on_error = true;
    assert_eq!(slots.emit(&error_event()), vec![Slot::Kind(EventKind::Error), Slot::Any]);
    slots.on_event = false;
    assert_eq!(slots.emit(&error_event()), vec![Slot::Kind(EventKind::Error)]);
    let other = AgentEvent::Finish { value: PyValue::Int(1) };
    assert_eq!(slots.emit(&other), Vec::new());
    assert_eq!(slots.captured_events, None);
}

#[test]
fn every_kind_has_its_slot() {
    let events = vec![
        (AgentEvent::IterationStart { iteration: 1, max_iterations: 2 }, EventKind::IterationStart),
        (AgentEvent::LLMRequest { message_count: 2 }, EventKind::LLMRequest),
        (
            AgentEvent::LLMResponse { content: "c".to_string(), tokens_used: None },
            EventKind::LLMResponse,
        ),
        (AgentEvent::Thinking { content: "t".to_string() }, EventKind::Thinking),
        (AgentEvent::CodeGenerated { code: "x".to_string() }, EventKind::CodeGenerated),
        (
            AgentEvent::CodeExecuted {
                code: "x".to_string(),
                output: "o".to_string(),
                success: true,
            },
            EventKind::CodeExecuted,
        ),
        (
            AgentEvent::ToolCall { name: "f".to_string(), args: vec![PyValue::Int(1)] },
            EventKind::ToolCall,
        ),
        (
            AgentEvent::ToolResult { name: "f".to_string(), result: PyValue::NoValue },
            EventKind::ToolResult,
        ),
        (AgentEvent::Finish { value: PyValue::NoValue }, EventKind::Finish),
        (error_event(), EventKind::Error),
    ];
    let agent = Agent::new(AgentConfig::new("test"))
        .on_iteration_start()
        .on_llm_request()
        .on_llm_response()
        .on_thinking()
        .on_code_generated()
        .on_code_executed()
        .on_tool_call()
        .on_tool_result()
        .on_finish()
        .on_error();
    for (event, kind) in &events {
        assert_eq!(event.kind(), *kind);
        assert_eq!(event.copy(), *event);
        assert_eq!(agent.emit(event), vec![Slot::Kind(*kind)]);
    }
    let all = agent.on_event();
    for (event, kind) in &events {
        assert_eq!(all.emit(event), vec![Slot::Kind(*kind), Slot::Any]);
    }
}

#[test]
fn verbose_takes_seven_slots() {
    let slots = verbose_callbacks();
    let taken: Vec<EventKind> = [
        EventKind::IterationStart,
        EventKind::LLMRequest,
        EventKind::LLMResponse,
        EventKind::Thinking,
        EventKind::CodeGenerated,
        EventKind::CodeExecuted,
        EventKind::ToolCall,
        EventKind::ToolResult,
        EventKind::Finish,
        EventKind::Error,
    ]
    .into_iter()
    .filter(|k| slots.is_listening(*k))
    .collect();
    assert_eq!(
        taken,
        vec![
            EventKind::IterationStart,
            EventKind::LLMResponse,
            EventKind::CodeGenerated,
            EventKind::CodeExecuted,
            EventKind::ToolCall,
            EventKind::Finish,
            EventKind::Error,
        ]
    );
    assert!(!slots.on_event);

    let quiet = Agent::new(AgentConfig::new("test")).verbose(false);
    assert_eq!(quiet.emit(&error_event()), Vec::new());
    let loud = Agent::new(AgentConfig::new("test")).verbose(true);
    assert_eq!(loud.emit(&error_event()), vec![Slot::Kind(EventKind::Error)]);
}

#[test]
fn captured_events_are_those_of_the_steps_in_order() {
    let mut agent = Agent::new(AgentConfig::new("test").max_iterations(2)).capture_events(true);
    let first = agent.run("", None, "task");
    let second = agent.on_model_reply("plain".to_string());
    let mut expected = first.events;
    expected.extend(second.events);
    assert_eq!(expected.len(), 3);
    assert_eq!(agent.take_events(), expected);
    assert_eq!(agent.take_events(), Vec::new());

    let mut silent = Agent::new(AgentConfig::new("test")).capture_events(true).capture_events(false);
    silent.run("", None, "task");
    assert_eq!(silent.take_events(), Vec::new());
}

#[test]
fn verbose_lines_are_short_and_on_one_line() {
    let line = |event: AgentEvent| verbose_line(&event);
    assert_eq!(
        line(AgentEvent::IterationStart { iteration: 2, max_iterations: 10 }),
        Some("[dragen] Iteration 2/10".to_string())
    );
    assert_eq!(line(AgentEvent::LLMRequest { message_count: 2 }), None);
    assert_eq!(line(AgentEvent::Thinking { content: "t".to_string() }), None);
    assert_eq!(
        line(AgentEvent::ToolResult { name: "f".to_string(), result: PyValue::NoValue }),
        None
    );
    assert_eq!(
        line(AgentEvent::LLMResponse { content: "two\nlines".to_string(), tokens_used: None }),
        Some("[dragen] LLM: two\\nlines".to_string())
    );
    let long = "x".repeat(101);
    assert_eq!(
        line(AgentEvent::LLMResponse { content: long, tokens_used: None }),
        Some(format!("[dragen] LLM: {}...", "x".repeat(100)))
    );
    assert_eq!(
        line(AgentEvent::CodeGenerated { code: "a\nb\r\nc\nd\n".to_string() }),
        Some("[dragen] Code: a\\nb\\nc...".to_string())
    );
    assert_eq!(
        line(AgentEvent::CodeGenerated { code: "a\nb\nc\n".to_string() }),
        Some("[dragen] Code: a\\nb\\nc".to_string())
    );
    assert_eq!(
        line(AgentEvent::CodeExecuted {
            code: "c".to_string(),
            output: "y".repeat(81),
            success: true,
        }),
        Some(format!("[dragen] \u{2713} {}...", "y".repeat(80)))
    );
    assert_eq!(
        line(AgentEvent::CodeExecuted {
            code: "c".to_string(),
            output: "Error: no".to_string(),
            success: false,
        }),
        Some("[dragen] \u{2717} Error: no".to_string())
    );
    let args = |n: i64| (0..n).map(PyValue::Int).collect::<Vec<_>>();
    assert_eq!(
        line(AgentEvent::ToolCall { name: "add".to_string(), args: args(2) }),
        Some("[dragen] Tool: add(0, 1)".to_string())
    );
    assert_eq!(
        line(AgentEvent::ToolCall { name: "add".to_string(), args: args(4) }),
        Some("[dragen] Tool: add(0, 1, 2, ...)".to_string())
    );
    assert_eq!(
        line(AgentEvent::Finish { value: PyValue::Str("done".to_string()) }),
        Some("[dragen] Finish: \"done\"".to_string())
    );
    assert_eq!(line(error_event()), Some("[dragen] Error: boom".to_string()));
}

#[test]
fn lines_are_split_at_line_feeds() {
    for text in ["", "a", "a\n", "a\nb", "\n", "\n\n", "a\r\nb\r", "\r\n", "a\rb\n\rc", "x\n\ny\n"] {
        let expected: Vec<String> = text.lines().map(|l| l.to_string()).collect();
        assert_eq!(split_lines(text), expected, "lines of {:?}", text);
    }
    assert_eq!(preview_of("abc", 3), "abc");
    assert_eq!(preview_of("abcd", 3), "abc...");
    assert_eq!(preview_of("a\nb", 2), "a\\n...");
    assert_eq!(preview_of("", 0), "");
}
