use dragen::{Agent, AgentConfig, Context, Json};

fn text(s: &str) -> Json {
    Json::Str(s.to_string())
}

#[test]
fn test_set_and_get() {
    let mut ctx = Context::new();
    ctx.set("name", text("Alice"));

    let name = ctx.get("name");
    assert_eq!(name, Some(text("Alice")));
}

#[test]
fn test_get_nonexistent() {
    let ctx = Context::new();
    let value = ctx.get("missing");
    assert_eq!(value, None);
}

#[test]
fn test_complex_types() {
    let plan = || {
        Json::Object(vec![
            ("title".to_string(), text("My Plan")),
            ("sections".to_string(), Json::Array(vec![text("Intro"), text("Body")])),
        ])
    };

    let mut ctx = Context::new();
    ctx.set("plan", plan());

    let retrieved = ctx.get("plan");
    assert_eq!(retrieved, Some(plan()));
}

#[test]
fn test_contains() {
    let mut ctx = Context::new();
    assert!(!ctx.contains("key"));

    ctx.set("key", Json::Int(42));
    assert!(ctx.contains("key"));
}

#[test]
fn test_remove() {
    let mut ctx = Context::new();
    ctx.set("key", Json::Int(42));

    let removed = ctx.remove("key");
    assert!(removed.is_some());
    assert!(!ctx.contains("key"));
}

#[test]
fn test_keys() {
    let mut ctx = Context::new();
    ctx.set("a", Json::Int(1));
    ctx.set("b", Json::Int(2));

    let mut keys = ctx.keys();
    keys.sort();
    assert_eq!(keys, vec!["a", "b"]);
}

#[test]
fn set_replaces_and_keeps_other_keys() {
    let mut ctx = Context::new();
    ctx.set("k", Json::Int(1));
    ctx.set("other", Json::Bool(true));
    ctx.set("k", Json::Int(2));
    assert_eq!(ctx.get("k"), Some(Json::Int(2)));
    assert_eq!(ctx.get_raw("k"), Some(Json::Int(2)));
    assert_eq!(ctx.get("other"), Some(Json::Bool(true)));
    assert_eq!(ctx.keys().len(), 2);
    assert_eq!(ctx.remove("k"), Some(Json::Int(2)));
    assert_eq!(ctx.remove("k"), None);
    assert_eq!(ctx.get("other"), Some(Json::Bool(true)));
}

#[test]
fn clear_empties_the_store() {
    let mut ctx = Context::new();
    ctx.set("a", Json::Null);
    ctx.set("b", Json::Null);
    ctx.clear();
    assert!(ctx.keys().is_empty());
    assert!(!ctx.contains("a"));
    assert_eq!(ctx.get("b"), None);
}

#[test]
fn injection_shows_each_bound_key_that_is_stored() {
    let mut ctx = Context::new();
    ctx.set("plan", Json::Object(vec![("title".to_string(), text("X"))]));
    ctx.set("notes", Json::Array(vec![Json::Int(1), Json::Int(2)]));
    let reads = vec!["plan".to_string(), "missing".to_string(), "notes".to_string()];
    assert_eq!(
        ctx.inject(&reads, "Write it"),
        "<context>\n=== PLAN ===\n{\n  \"title\": \"X\"\n}\n\n=== NOTES ===\n[\n  1,\n  2\n]\n</context>\n\nWrite it"
    );
}

#[test]
fn injection_leaves_the_task_alone_without_data() {
    let mut ctx = Context::new();
    ctx.set("plan", Json::Int(1));
    assert_eq!(ctx.inject(&Vec::new(), "task"), "task");
    assert_eq!(ctx.inject(&vec!["absent".to_string()], "task"), "task");
}

#[test]
fn agent_reads_the_store_once_at_the_start_of_a_run() {
    let mut ctx = Context::new();
    ctx.set("plan", text("first"));
    let mut agent = Agent::new(AgentConfig::new("test")).from_context("plan");
    assert_eq!(
        agent.inject_context_into_task(&ctx, "Execute the plan"),
        "<context>\n=== PLAN ===\n\"first\"\n</context>\n\nExecute the plan"
    );
    agent.run("", Some(&ctx), "Execute the plan");
    ctx.set("plan", text("second"));
    agent.on_model_reply("<code>x = 1</code>".to_string());
    let seen = &agent.messages()[1].content;
    assert!(seen.contains("=== PLAN ===\n\"first\""));
    assert!(!seen.contains("second"));
    assert!(seen.ends_with("</context>\n\nExecute the plan"));
}

#[test]
fn agent_saves_its_result_under_the_bound_key() {
    let mut ctx = Context::new();
    let plain = Agent::new(AgentConfig::new("test"));
    plain.save_to_context(&mut ctx, Json::Int(1));
    assert!(ctx.keys().is_empty());
    let bound = Agent::new(AgentConfig::new("test")).to_context("plan");
    bound.save_to_context(&mut ctx, Json::Int(7));
    assert_eq!(ctx.get("plan"), Some(Json::Int(7)));
}
