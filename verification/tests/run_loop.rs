use dragen::{
    Action, Agent, AgentConfig, AgentEvent, Context, Error, Json, Message, Output, PyValue, Role,
    Step,
};

fn agent_with_budget(max: usize) -> Agent {
    Agent::new(AgentConfig::new("test").max_iterations(max))
}

fn start(agent: &mut Agent, task: &str) -> Step {
    agent.run("", None, task)
}

fn reply(agent: &mut Agent, text: &str) -> Step {
    assert!(agent.awaits_model());
    let step = agent.on_model_reply(text.to_string());
    agent.advance(step)
}

fn printed(lines: &[&str]) -> Result<Output, String> {
    Ok(Output { value: PyValue::NoValue, output: lines.iter().map(|l| l.to_string()).collect() })
}

fn answer_schema() -> Json {
    Json::Object(vec![
        ("type".to_string(), Json::Str("object".to_string())),
        ("required".to_string(), Json::Array(vec![Json::Str("answer".to_string())])),
        (
            "properties".to_string(),
            Json::Object(vec![(
                "answer".to_string(),
                Json::Object(vec![("type".to_string(), Json::Str("integer".to_string()))]),
            )]),
        ),
    ])
}

fn answer(value: Json) -> Json {
    Json::Object(vec![("answer".to_string(), value)])
}

fn user_turns(log: &[Message]) -> Vec<&str> {
    log.iter().filter(|m| m.role == Role::User).map(|m| m.content.as_str()).collect()
}

#[test]
fn test_chat_initializes_system_prompt() {
    let mut agent = Agent::with_model("test");
    assert!(agent.messages().is_empty());

    agent.chat("", "hello");

    assert_eq!(agent.messages().len(), 2);
    assert_eq!(agent.messages()[0].role, Role::System);
    assert_eq!(agent.messages()[1].role, Role::User);
    assert_eq!(agent.messages()[1].content, "hello");
}

#[test]
fn test_chat_preserves_history() {
    let mut agent = Agent::with_model("test");

    agent.chat("", "first");
    let step = agent.on_model_reply("response 1".to_string());
    assert_eq!(step.action, Action::Reply { text: "response 1".to_string() });
    let len_after_first = agent.messages().len();

    agent.chat("", "second");
    let step = agent.on_model_reply("response 2".to_string());
    assert_eq!(step.action, Action::Reply { text: "response 2".to_string() });

    assert!(agent.messages().len() > len_after_first);
    assert_eq!(agent.messages().len(), 5);
}

#[test]
fn test_clear() {
    let mut agent = Agent::with_model("test");

    agent.chat("", "hello");
    assert_eq!(agent.messages().len(), 2);

    agent.clear();
    assert!(agent.messages().is_empty());
}

#[test]
fn run_resets_the_log_and_chat_does_not() {
    let mut agent = Agent::with_model("test");
    start(&mut agent, "one");
    agent.on_model_reply("plain".to_string());
    assert_eq!(agent.messages().len(), 3);
    start(&mut agent, "two");
    assert_eq!(agent.messages().len(), 2);
    assert_eq!(agent.messages()[1].content, "two");
    let prompt = agent.messages()[0].content.clone();
    agent.chat("def later_tool()", "three");
    assert_eq!(agent.messages().len(), 3);
    assert_eq!(agent.messages()[0].content, prompt);
}

#[test]
fn code_then_finish_block_returns_after_two_iterations() {
    let mut agent = agent_with_budget(10);
    let step = start(&mut agent, "Compute 2+2");
    assert_eq!(step.action, Action::CallModel);
    assert_eq!(
        step.events,
        vec![
            AgentEvent::IterationStart { iteration: 1, max_iterations: 10 },
            AgentEvent::LLMRequest { message_count: 2 },
        ]
    );

    let step = reply(&mut agent, "I will compute it.\n```python\nprint(2+2)\n```");
    assert_eq!(step.action, Action::Execute { code: "print(2+2)".to_string() });

    assert!(agent.awaits_execution());
    let step = agent.on_executed(printed(&["4"]), None);
    assert_eq!(step.action, Action::CallModel);
    assert_eq!(
        step.events,
        vec![
            AgentEvent::CodeExecuted {
                code: "print(2+2)".to_string(),
                output: "4".to_string(),
                success: true,
            },
            AgentEvent::IterationStart { iteration: 2, max_iterations: 10 },
            AgentEvent::LLMRequest { message_count: 4 },
        ]
    );
    assert_eq!(agent.messages()[3].content, "Execution output:\n```\n4\n```");

    let step = reply(&mut agent, "<finish>{\"answer\":4}</finish>");
    assert_eq!(step.action, Action::Decode { candidate: answer(Json::Int(4)) });

    assert!(agent.awaits_decode());
    let step = agent.on_decoded(Ok(()));
    assert_eq!(step.action, Action::Finished);
    assert_eq!(
        step.events,
        vec![AgentEvent::Finish {
            value: PyValue::Dict(vec![("answer".to_string(), PyValue::Int(4))]),
        }]
    );
    assert_eq!(agent.iterations(), 2);
    assert_eq!(
        agent.finish_value(),
        Some(PyValue::Dict(vec![("answer".to_string(), PyValue::Int(4))]))
    );
}

#[test]
fn finish_block_sets_the_finish_slot() {
    let mut agent = agent_with_budget(3);
    start(&mut agent, "Answer");
    assert_eq!(agent.finish_value(), None);
    let step = reply(&mut agent, "<finish>{\"answer\":4}</finish>");
    assert_eq!(step.action, Action::Decode { candidate: answer(Json::Int(4)) });
    let held = Some(PyValue::Dict(vec![("answer".to_string(), PyValue::Int(4))]));
    assert_eq!(agent.finish_value(), held);
    agent.on_decoded(Ok(()));
    assert_eq!(agent.finish_value(), held);

    start(&mut agent, "Again");
    assert_eq!(agent.finish_value(), None);
    reply(&mut agent, "<finish>[1]</finish>");
    assert_eq!(agent.finish_value(), Some(PyValue::List(vec![PyValue::Int(1)])));
    let step = agent.on_decoded(Err("wrong shape".to_string()));
    assert_eq!(step.action, Action::CallModel);
    assert_eq!(agent.finish_value(), None);

    agent.chat("", "hi");
    agent.on_model_reply("<finish> done </finish>".to_string());
    assert_eq!(agent.finish_value(), Some(PyValue::Str("done".to_string())));
}

#[test]
fn schema_failure_is_fed_back_once_and_second_answer_succeeds() {
    let mut agent = agent_with_budget(10).schema(answer_schema());
    assert!(agent.schema_doc().is_some());
    start(&mut agent, "Answer");

    let step = reply(&mut agent, "<finish>{\"answer\":\"four\"}</finish>");
    assert_eq!(step.action, Action::CallModel);
    assert_eq!(agent.finish_value(), None);
    let users = user_turns(agent.messages());
    assert_eq!(users.len(), 2);
    let feedback = users[1];
    assert!(feedback.starts_with(
        "Your output did not match the expected schema.\n\nSchema validation failed:\n- /answer: "
    ));
    assert!(feedback.contains("\n\nExpected keys: [\"answer\"]\n\nYour output:\n{\n  \"answer\": \"four\"\n}"));
    assert!(feedback.ends_with("\n\nPlease fix and try again."));
    let errors: Vec<&AgentEvent> =
        step.events.iter().filter(|e| matches!(e, AgentEvent::Error { .. })).collect();
    assert_eq!(errors.len(), 1);

    let step = reply(&mut agent, "<finish>{\"answer\":4}</finish>");
    assert_eq!(step.action, Action::Decode { candidate: answer(Json::Int(4)) });
    let step = agent.on_decoded(Ok(()));
    assert_eq!(step.action, Action::Finished);
    assert_eq!(agent.iterations(), 2);
    assert_eq!(user_turns(agent.messages()).len(), 2);
}

#[test]
fn budget_of_one_yields_max_iterations_after_one_call() {
    let mut agent = agent_with_budget(1);
    let mut calls = 0;
    let mut step = start(&mut agent, "Loop");
    loop {
        match step.action {
            Action::CallModel => {
                calls += 1;
                step = reply(&mut agent, "```python\nprint('still working')\n```");
            }
            Action::Execute { .. } => {
                step = agent.on_executed(printed(&["still working"]), None);
            }
            Action::Failed { error } => {
                assert_eq!(error, Error::MaxIterations(1));
                assert_eq!(error.message(), "Maximum iterations (1) reached");
                break;
            }
            other => panic!("unexpected action {:?}", other),
        }
    }
    assert_eq!(calls, 1);
    assert_eq!(
        step.events.last(),
        Some(&AgentEvent::Error { message: "Max iterations (1) reached".to_string() })
    );
}

#[test]
fn budget_of_zero_calls_the_model_never() {
    let mut agent = agent_with_budget(0);
    let step = start(&mut agent, "Nothing");
    assert_eq!(step.action, Action::Failed { error: Error::MaxIterations(0) });
    assert_eq!(agent.iterations(), 0);
}

#[test]
fn budget_is_never_exceeded_whatever_the_model_does() {
    for max in 0..6 {
        let mut agent = agent_with_budget(max).schema(answer_schema());
        let mut calls = 0;
        let mut turn = 0;
        let mut step = start(&mut agent, "Loop");
        loop {
            match step.action {
                Action::CallModel => {
                    calls += 1;
                    turn += 1;
                    let text = match turn % 3 {
                        0 => "<finish>not json</finish>",
                        1 => "<code>x = 1</code>",
                        _ => "<finish>{\"answer\": \"no\"}</finish>",
                    };
                    step = reply(&mut agent, text);
                }
                Action::Execute { .. } => {
                    step = agent.on_executed(Err("boom".to_string()), None);
                }
                Action::Failed { .. } => break,
                other => panic!("unexpected action {:?}", other),
            }
        }
        assert!(calls <= max);
        assert_eq!(calls, agent.iterations());
    }
}

#[test]
fn invalid_json_in_finish_block_is_fed_back() {
    let mut agent = agent_with_budget(3);
    start(&mut agent, "Answer");
    let step = reply(&mut agent, "<finish>{oops}</finish>");
    assert_eq!(step.action, Action::CallModel);
    let users = user_turns(agent.messages());
    assert_eq!(users.len(), 2);
    assert!(users[1].starts_with("Error parsing your <finish> block:\n\n"));
    assert!(users[1].ends_with("\n\nYour output:\n```\n{oops}\n```\n\nPlease fix and try again."));
    match &step.events[1] {
        AgentEvent::Error { message } => {
            assert!(message.starts_with("Invalid JSON in <finish> block: "))
        }
        other => panic!("unexpected event {:?}", other),
    }
}

#[test]
fn failure_at_the_end_of_the_budget_is_a_deserialization_error() {
    let mut agent = agent_with_budget(1);
    start(&mut agent, "Answer");
    let step = reply(&mut agent, "<finish>{oops}</finish>");
    match step.action {
        Action::Failed { error: Error::Deserialization(message) } => {
            assert!(message.starts_with("Invalid JSON in <finish> block: "));
        }
        other => panic!("unexpected action {:?}", other),
    }
    assert_eq!(user_turns(agent.messages()).len(), 1);
}

#[test]
fn decode_failure_is_fed_back_with_the_payload() {
    let mut agent = agent_with_budget(3);
    start(&mut agent, "Answer");
    let step = reply(&mut agent, "<finish> [1, 2] </finish>");
    assert_eq!(step.action, Action::Decode { candidate: Json::Array(vec![Json::Int(1), Json::Int(2)]) });
    let step = agent.on_decoded(Err("invalid type: sequence, expected a string".to_string()));
    assert_eq!(step.action, Action::CallModel);
    assert_eq!(
        user_turns(agent.messages())[1],
        "Error parsing your <finish> block:\n\ninvalid type: sequence, expected a string\n\nYour output:\n```\n[1, 2]\n```\n\nPlease fix and try again."
    );
}

#[test]
fn finish_capability_ends_the_run() {
    let mut agent = agent_with_budget(3);
    start(&mut agent, "Answer");
    let step = reply(&mut agent, "<code>finish({'answer': 4})</code>");
    assert_eq!(step.action, Action::Execute { code: "finish({'answer': 4})".to_string() });
    let value = PyValue::Dict(vec![("answer".to_string(), PyValue::Int(4))]);
    let shown = dragen::finish_output(&value);
    assert_eq!(shown, "___FINISH___:answer: 4");
    let outcome = Ok(Output { value: PyValue::Str(shown), output: Vec::new() });
    let step = agent.on_executed(outcome, Some(value.copy()));
    let step = agent.advance(step);
    assert_eq!(step.action, Action::Decode { candidate: answer(Json::Int(4)) });
    assert_eq!(agent.finish_value(), Some(value.copy()));
    let step = agent.on_decoded(Err("missing field".to_string()));
    assert_eq!(step.action, Action::CallModel);
    assert_eq!(agent.finish_value(), None);
    assert_eq!(
        user_turns(agent.messages())[1],
        "Error parsing your finish() output:\n\nmissing field\n\nYour output:\n```\n{\"answer\":4}\n```\n\nPlease fix and try again."
    );
}

#[test]
fn finish_capability_result_is_checked_against_the_schema() {
    let mut agent = agent_with_budget(3).schema(answer_schema());
    start(&mut agent, "Answer");
    reply(&mut agent, "<code>finish({'answer': 'four'})</code>");
    let value = PyValue::Dict(vec![("answer".to_string(), PyValue::Str("four".to_string()))]);
    let outcome = Ok(Output { value: PyValue::Str(dragen::finish_output(&value)), output: Vec::new() });
    let step = agent.on_executed(outcome, Some(value));
    assert!(matches!(step.action, Action::Validate { .. }));
    let step = agent.advance(step);
    assert_eq!(step.action, Action::CallModel);
    assert_eq!(agent.finish_value(), None);
    assert_eq!(user_turns(agent.messages()).len(), 2);
}

#[test]
fn marker_without_a_stored_value_fails_the_run() {
    let mut agent = agent_with_budget(3);
    start(&mut agent, "Answer");
    reply(&mut agent, "<code>print('___FINISH___:x')</code>");
    let step = agent.on_executed(printed(&["___FINISH___:x"]), None);
    assert_eq!(
        step.action,
        Action::Failed { error: Error::Deserialization("No finish value captured".to_string()) }
    );
}

#[test]
fn sandbox_error_is_shown_to_the_model() {
    let mut agent = agent_with_budget(3);
    start(&mut agent, "Answer");
    reply(&mut agent, "<code>undefined_var</code>");
    let step = agent.on_executed(Err("Name error: 'undefined_var' is not defined".to_string()), None);
    assert_eq!(step.action, Action::CallModel);
    assert_eq!(
        step.events[0],
        AgentEvent::CodeExecuted {
            code: "undefined_var".to_string(),
            output: "Error: Name error: 'undefined_var' is not defined".to_string(),
            success: false,
        }
    );
    assert_eq!(
        user_turns(agent.messages())[1],
        "Execution output:\n```\nError: Name error: 'undefined_var' is not defined\n```"
    );
}

#[test]
fn plain_text_goes_to_the_decoder() {
    let mut agent = agent_with_budget(3);
    start(&mut agent, "Answer");
    let step = reply(&mut agent, "The answer is 42.");
    assert_eq!(step.action, Action::DecodeText { text: "The answer is 42.".to_string() });
    assert!(agent.awaits_text_decode());
    let step = agent.on_text_decoded(Err("expected value".to_string()));
    assert_eq!(
        step.action,
        Action::Failed { error: Error::Deserialization("expected value".to_string()) }
    );

    start(&mut agent, "Answer");
    reply(&mut agent, "42");
    let step = agent.on_text_decoded(Ok(()));
    assert_eq!(step.action, Action::Finished);
}

#[test]
fn model_failure_is_fatal() {
    let mut agent = agent_with_budget(3);
    start(&mut agent, "Answer");
    let step = agent.on_model_failed("Request timed out after 30 seconds".to_string());
    match &step.action {
        Action::Failed { error } => {
            assert_eq!(error, &Error::Llm("Request timed out after 30 seconds".to_string()));
            assert_eq!(error.message(), "LLM error: Request timed out after 30 seconds");
        }
        other => panic!("unexpected action {:?}", other),
    }
}

#[test]
fn chat_answers_with_finish_block_value_or_text() {
    let mut agent = agent_with_budget(3);
    agent.chat("", "hi");
    let step = agent.on_model_reply("<finish> done </finish>".to_string());
    assert_eq!(step.action, Action::Reply { text: "done".to_string() });
    assert_eq!(
        step.events.last(),
        Some(&AgentEvent::Finish { value: PyValue::Str("done".to_string()) })
    );

    agent.chat("", "again");
    agent.on_model_reply("<code>finish([1, 'a'])</code>".to_string());
    let value = PyValue::List(vec![PyValue::Int(1), PyValue::Str("a".to_string())]);
    let outcome = Ok(Output { value: PyValue::Str(dragen::finish_output(&value)), output: Vec::new() });
    let step = agent.on_executed(outcome, Some(value));
    assert_eq!(step.action, Action::Reply { text: "[1, a]".to_string() });

    agent.chat("", "more");
    agent.on_model_reply("<code>print('___FINISH___:')</code>".to_string());
    let step = agent.on_executed(printed(&["___FINISH___:"]), None);
    assert_eq!(step.action, Action::Reply { text: String::new() });
}

#[test]
fn thinking_is_reported_and_stays_in_the_log() {
    let mut agent =
        Agent::new(AgentConfig::new("test").max_iterations(3).thinking_tag("think"));
    start(&mut agent, "Answer");
    let text = "<think> step one </think><code>x = 1</code>";
    let step = agent.on_model_reply(text.to_string());
    assert_eq!(
        step.events,
        vec![
            AgentEvent::LLMResponse { content: text.to_string(), tokens_used: None },
            AgentEvent::Thinking { content: "step one".to_string() },
            AgentEvent::CodeGenerated { code: "x = 1".to_string() },
        ]
    );
    assert_eq!(agent.messages()[2].role, Role::Assistant);
    assert_eq!(agent.messages()[2].content, text);
}

#[test]
fn reply_read_takes_the_parse_as_given() {
    let mut agent = agent_with_budget(3);
    start(&mut agent, "Answer");
    let step = agent.on_reply_read("<finish>anything</finish>".to_string(), Ok(Json::Int(7)));
    assert_eq!(step.action, Action::Decode { candidate: Json::Int(7) });

    start(&mut agent, "Answer");
    let step =
        agent.on_reply_read("<finish>anything</finish>".to_string(), Err("bad".to_string()));
    assert_eq!(step.action, Action::CallModel);
    assert_eq!(
        user_turns(agent.messages())[1],
        "Error parsing your <finish> block:\n\nbad\n\nYour output:\n```\nanything\n```\n\nPlease fix and try again."
    );
}

#[test]
fn result_of_one_agent_reaches_the_task_of_the_next() {
    let mut ctx = Context::new();

    let mut planner = agent_with_budget(3).to_context("plan");
    start(&mut planner, "Plan it");
    let step = reply(&mut planner, "<finish>{\"title\":\"X\"}</finish>");
    let candidate = match step.action {
        Action::Decode { candidate } => candidate,
        other => panic!("unexpected action {:?}", other),
    };
    let step = planner.on_decoded(Ok(()));
    assert_eq!(step.action, Action::Finished);
    planner.save_to_context(&mut ctx, candidate);

    let mut executor = agent_with_budget(3).from_context("plan");
    executor.run("", Some(&ctx), "Execute the plan");
    let seen = &executor.messages()[1].content;
    assert_eq!(
        seen,
        "<context>\n=== PLAN ===\n{\n  \"title\": \"X\"\n}\n</context>\n\nExecute the plan"
    );
}
