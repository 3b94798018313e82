use dragen::{judge_schema, report_schema_failure, Agent, AgentConfig, Json, SchemaIssue};

fn text(s: &str) -> Json {
    Json::Str(s.to_string())
}

fn schema() -> Json {
    Json::Object(vec![
        ("type".to_string(), text("object")),
        ("required".to_string(), Json::Array(vec![text("content"), text("sources")])),
        (
            "properties".to_string(),
            Json::Object(vec![
                ("content".to_string(), Json::Object(vec![("type".to_string(), text("string"))])),
                (
                    "sources".to_string(),
                    Json::Object(vec![
                        ("type".to_string(), text("array")),
                        (
                            "items".to_string(),
                            Json::Object(vec![("type".to_string(), text("string"))]),
                        ),
                    ]),
                ),
            ]),
        ),
    ])
}

fn issue(path: &str, message: &str) -> SchemaIssue {
    SchemaIssue { path: path.to_string(), message: message.to_string() }
}

#[test]
fn no_schema_accepts_everything() {
    let agent = Agent::new(AgentConfig::new("test"));
    assert_eq!(agent.validate_against_schema(&Json::Null), Ok(()));
}

#[test]
fn matching_candidate_passes() {
    let agent = Agent::new(AgentConfig::new("test")).schema(schema());
    let candidate = Json::Object(vec![
        ("content".to_string(), text("growing")),
        ("sources".to_string(), Json::Array(vec![text("https://example.com")])),
    ]);
    assert_eq!(agent.validate_against_schema(&candidate), Ok(()));
}

#[test]
fn failing_candidate_gets_a_report() {
    let agent = Agent::new(AgentConfig::new("test")).schema(schema());
    let candidate = Json::Object(vec![("content".to_string(), Json::Int(3))]);
    let report = agent.validate_against_schema(&candidate).unwrap_err();
    assert!(report.starts_with("Schema validation failed:\n- "));
    assert!(report.contains("- /content: 3 is not of type \"string\""));
    assert!(report.contains("\"sources\" is a required property"));
    assert!(report.ends_with(
        "\n\nExpected keys: [\"content\",\"sources\"]\n\nYour output:\n{\n  \"content\": 3\n}"
    ));
}

#[test]
fn report_lists_the_findings_in_order() {
    let issues = vec![issue("/a", "first"), issue("", "second")];
    assert_eq!(
        report_schema_failure(&issues, &schema(), &Json::Int(1)),
        "Schema validation failed:\n- /a: first\n- : second\n\nExpected keys: [\"content\",\"sources\"]\n\nYour output:\n1"
    );
    let bare = Json::Object(vec![("type".to_string(), text("integer"))]);
    assert_eq!(
        report_schema_failure(&issues[..1].to_vec(), &bare, &text("x")),
        "Schema validation failed:\n- /a: first\n\nYour output:\n\"x\""
    );
}

#[test]
fn verdict_follows_the_findings() {
    assert_eq!(judge_schema(&Vec::new(), &schema(), &Json::Null), Ok(()));
    assert_eq!(
        judge_schema(&vec![issue("/x", "bad")], &Json::Null, &Json::Null),
        Err("Schema validation failed:\n- /x: bad\n\nYour output:\nnull".to_string())
    );
}

#[test]
fn schema_that_does_not_compile_is_not_attached() {
    let broken = Json::Object(vec![("type".to_string(), Json::Int(12))]);
    let mut agent = Agent::new(AgentConfig::new("test")).schema(broken);
    assert_eq!(agent.schema_doc(), &None);
    assert_eq!(agent.validate_against_schema(&Json::Null), Ok(()));

    agent.set_schema(schema());
    assert_eq!(agent.schema_doc(), &Some(schema()));
    agent.clear_schema();
    assert_eq!(agent.schema_doc(), &None);

    agent.attach_schema(schema(), false);
    assert_eq!(agent.schema_doc(), &None);
    agent.attach_schema(schema(), true);
    assert_eq!(agent.schema_doc(), &Some(schema()));
}
