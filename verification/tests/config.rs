use dragen::prompt::{system_prompt, tool_docs, DEFAULT_SYSTEM, FINISH_MARKER, SYSTEM_PROMPT_TEMPLATE};
use dragen::{Agent, AgentConfig, Error};

#[test]
fn defaults_are_as_documented() {
    let config = AgentConfig::default();
    assert_eq!(config.model, "llama-3.3-70b-versatile");
    assert_eq!(config.max_iterations, 10);
    assert_eq!(config.temperature, Some(0.7f32.to_bits()));
    assert_eq!(config.max_tokens, Some(4096));
    assert_eq!(config.system, None);
    assert_eq!(config.thinking_tag, None);
    assert_eq!(AgentConfig::new("gpt-4o").model, "gpt-4o");
    assert_eq!(AgentConfig::new("gpt-4o").max_iterations, 10);
}

#[test]
fn builders_set_one_field_each() {
    let config = AgentConfig::new("m")
        .max_iterations(3)
        .temperature(0.25f32.to_bits())
        .max_tokens(100)
        .system("You are terse.")
        .thinking_tag("intent");
    assert_eq!(config.max_iterations, 3);
    assert_eq!(config.temperature.map(f32::from_bits), Some(0.25));
    assert_eq!(config.max_tokens, Some(100));
    assert_eq!(config.system.as_deref(), Some("You are terse."));
    assert_eq!(config.thinking_tag.as_deref(), Some("intent"));
    assert_eq!(config.model, "m");
    let open = config.copy().no_max_tokens();
    assert_eq!(open.max_tokens, None);
    assert_eq!(open.max_iterations, 3);
    assert_eq!(config.copy(), config);
}

#[test]
fn prompt_holds_system_description_and_tools() {
    let prompt = system_prompt(&None, "");
    assert!(prompt.starts_with(DEFAULT_SYSTEM));
    assert!(prompt.contains("<functions>\nNo tools available.\n</functions>"));
    assert_eq!(
        prompt,
        SYSTEM_PROMPT_TEMPLATE
            .replace("{system}", DEFAULT_SYSTEM)
            .replace("{tools}", "No tools available.")
    );
    let custom = system_prompt(&Some("Be brief.".to_string()), "def add(a, b)");
    assert!(custom.starts_with("Be brief.\n\n<functions>\ndef add(a, b)\n</functions>"));
    assert_eq!(tool_docs(""), "No tools available.");
    assert_eq!(tool_docs("def f()"), "def f()");
    assert_eq!(FINISH_MARKER, "___FINISH___:");

    let agent = Agent::new(AgentConfig::new("m").system("Be brief."));
    assert_eq!(agent.system_prompt("def add(a, b)"), custom);
}

#[test]
fn every_error_says_what_it_is() {
    assert_eq!(Error::Llm("down".to_string()).message(), "LLM error: down");
    assert_eq!(Error::Sandbox("crash".to_string()).message(), "Sandbox error: crash");
    assert_eq!(Error::NoCodeFound.message(), "No code block found in response");
    assert_eq!(Error::MaxIterations(10).message(), "Maximum iterations (10) reached");
    assert_eq!(Error::Completed("bye".to_string()).message(), "Agent completed: bye");
    assert_eq!(
        Error::Deserialization("bad".to_string()).message(),
        "Deserialization error: bad"
    );
    assert_eq!(Error::MaxIterations(3).copy(), Error::MaxIterations(3));
}
