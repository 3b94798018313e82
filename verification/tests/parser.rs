use dragen::{extract_code, extract_finish, extract_thinking, parse_response, Agent, Parsed};

fn fenced_python() -> &'static str {
    "Let me calculate that:\n\n```python\nx = 1 + 2\nprint(x)\n```\n\nThis will output 3."
}

fn tagged() -> &'static str {
    "Let me calculate:\n\n<code>\nx = add(1, 2)\nprint(x)\n</code>\n\nThis will give us the result."
}

fn finish_text() -> &'static str {
    "Based on my research, here is the result:\n\n<finish>\n{\"content\": \"The market is growing\", \"sources\": [\"https://example.com\"]}\n</finish>\n\nI hope this helps!"
}

#[test]
fn agent_test_extract_code() {
    let agent = Agent::with_model("test");
    let code = agent.extract_code(fenced_python());
    assert_eq!(code, Some("x = 1 + 2\nprint(x)".to_string()));
}

#[test]
fn mod_test_extract_code() {
    let agent = Agent::with_model("test");
    let code = agent.extract_code(fenced_python());
    assert_eq!(code, Some("x = 1 + 2\nprint(x)".to_string()));
}

#[test]
fn agent_test_extract_code_no_language() {
    let agent = Agent::with_model("test");
    let code = agent.extract_code("```\nx = 1\n```");
    assert_eq!(code, Some("x = 1".to_string()));
}

#[test]
fn mod_test_extract_code_no_language() {
    let agent = Agent::with_model("test");
    let code = agent.extract_code("```\nx = 1\n```");
    assert_eq!(code, Some("x = 1".to_string()));
}

#[test]
fn agent_test_extract_code_xml_tag() {
    let agent = Agent::with_model("test");
    let code = agent.extract_code(tagged());
    assert_eq!(code, Some("x = add(1, 2)\nprint(x)".to_string()));
}

#[test]
fn mod_test_extract_code_xml_tag() {
    let agent = Agent::with_model("test");
    let code = agent.extract_code(tagged());
    assert_eq!(code, Some("x = add(1, 2)\nprint(x)".to_string()));
}

#[test]
fn agent_test_no_code_block() {
    let agent = Agent::with_model("test");
    let code = agent.extract_code("The answer is 42.");
    assert_eq!(code, None);
}

#[test]
fn mod_test_no_code_block() {
    let agent = Agent::with_model("test");
    let code = agent.extract_code("The answer is 42.");
    assert_eq!(code, None);
}

#[test]
fn agent_test_extract_finish_block() {
    let agent = Agent::with_model("test");
    let finish = agent.extract_finish(finish_text());
    assert!(finish.is_some());
    let content = finish.unwrap();
    assert!(content.contains("\"content\""));
    assert!(content.contains("\"sources\""));
}

#[test]
fn mod_test_extract_finish_block() {
    let agent = Agent::with_model("test");
    let finish = agent.extract_finish(finish_text());
    assert!(finish.is_some());
    let content = finish.unwrap();
    assert!(content.contains("\"content\""));
    assert!(content.contains("\"sources\""));
}

#[test]
fn agent_test_no_finish_block() {
    let agent = Agent::with_model("test");
    let finish = agent.extract_finish("The answer is 42.");
    assert_eq!(finish, None);
}

#[test]
fn mod_test_no_finish_block() {
    let agent = Agent::with_model("test");
    let finish = agent.extract_finish("The answer is 42.");
    assert_eq!(finish, None);
}

#[test]
fn finish_payload_is_trimmed_exactly() {
    let finish = extract_finish(finish_text());
    assert_eq!(
        finish,
        Some(
            "{\"content\": \"The market is growing\", \"sources\": [\"https://example.com\"]}"
                .to_string()
        )
    );
}

#[test]
fn finish_block_wins_over_code_whatever_surrounds_it() {
    let text = "prose ```python\nprint(1)\n``` more <finish> {\"a\": 1} </finish> and <code>x</code>";
    match parse_response(text) {
        Parsed::Finish(payload) => assert_eq!(payload, "{\"a\": 1}"),
        other => panic!("expected a finish block, got {:?}", other),
    }
}

#[test]
fn first_code_block_in_text_order_wins() {
    let tag_first = "<code>a = 1</code> then ```python\nb = 2\n```";
    assert_eq!(extract_code(tag_first), Some("a = 1".to_string()));
    let fence_first = "```python\nb = 2\n``` then <code>a = 1</code>";
    assert_eq!(extract_code(fence_first), Some("b = 2".to_string()));
}

#[test]
fn empty_blocks_yield_empty_text() {
    assert_eq!(extract_finish("<finish></finish>"), Some(String::new()));
    assert_eq!(extract_finish("<finish>  \n </finish>"), Some(String::new()));
    assert_eq!(extract_code("<code></code>"), Some(String::new()));
    assert_eq!(extract_code("```\n```"), Some(String::new()));
}

#[test]
fn fence_needs_a_line_feed_after_its_language() {
    assert_eq!(extract_code("```python x = 1```"), None);
    assert_eq!(extract_code("```js\nx = 1\n```"), None);
    assert_eq!(extract_code("```py\nx = 1\n```"), Some("x = 1".to_string()));
    assert_eq!(extract_code("```python  \n\n x = 1 \n```"), Some("x = 1".to_string()));
    assert_eq!(extract_code("```pyth\nx = 1\n```"), None);
}

#[test]
fn unclosed_blocks_are_no_blocks() {
    assert_eq!(extract_finish("<finish>{\"a\": 1}"), None);
    assert_eq!(extract_finish("</finish> <finish>"), None);
    assert_eq!(extract_code("<code>x = 1"), None);
    assert_eq!(extract_code("```python\nx = 1"), None);
    assert!(matches!(parse_response("just words"), Parsed::Text));
}

#[test]
fn a_closing_fence_can_open_the_next_block() {
    // The first fence opens nothing (`js` is no accepted language), so the
    // fence that closes it is the first that opens a block: the empty one
    // up to the fence that follows.
    assert_eq!(extract_code("```js\nlet a;\n```\n```python\nb = 2\n```"), Some(String::new()));
    assert_eq!(extract_code("```js let a;``` ```python\nb = 2\n```"), Some("b = 2".to_string()));
}

#[test]
fn unicode_whitespace_is_trimmed() {
    assert_eq!(
        extract_finish("<finish>\u{00A0}\u{2003}{\"a\": 1}\u{3000}\n</finish>"),
        Some("{\"a\": 1}".to_string())
    );
}

#[test]
fn thinking_is_read_from_the_named_tag() {
    let text = "<intent> look it up </intent>\n<code>x</code>";
    assert_eq!(extract_thinking(text, "intent"), Some("look it up".to_string()));
    assert_eq!(extract_thinking(text, "think"), None);
    let agent = Agent::with_model("test");
    assert_eq!(agent.extract_thinking(text), None);
    let tagged = Agent::new(dragen::AgentConfig::new("test").thinking_tag("intent"));
    assert_eq!(tagged.extract_thinking(text), Some("look it up".to_string()));
}

fn regex_code(text: &str) -> Option<String> {
    let re = regex::Regex::new(
        r"(?:<code>\s*([\s\S]*?)</code>|```(?:python|py)?\s*\n([\s\S]*?)```)",
    )
    .unwrap();
    re.captures(text).map(|cap| {
        cap.get(1)
            .or_else(|| cap.get(2))
            .map(|m| m.as_str().trim().to_string())
            .unwrap_or_default()
    })
}

fn regex_finish(text: &str) -> Option<String> {
    let re = regex::Regex::new(r"<finish>\s*([\s\S]*?)</finish>").unwrap();
    re.captures(text).map(|cap| {
        cap.get(1).map(|m| m.as_str().trim().to_string()).unwrap_or_default()
    })
}

#[test]
fn parser_agrees_with_the_patterns_it_stands_for() {
    let samples = [
        "",
        "The answer is 42.",
        fenced_python(),
        tagged(),
        finish_text(),
        "```\nx = 1\n```",
        "```python x = 1```",
        "```js\nx = 1\n```",
        "```py\nx = 1\n```",
        "```pyth\nx = 1\n```",
        "```python3\nx\n```",
        "```python \t\n\n  x = 1 \n   ```",
        "````\nx\n````",
        "`````python\nx\n```",
        "```\n```",
        "``` \n ``` ```\nq\n```",
        "<code></code>",
        "<code>x<code>y</code>z</code>",
        "</code><code>a</code>",
        "<code>a</code> ```python\nb\n```",
        "```python\nb\n``` <code>a</code>",
        "```js\nlet a;\n```\n```python\nb = 2\n```",
        "<finish></finish>",
        "<finish> <finish> {} </finish> </finish>",
        "</finish><finish>1</finish>",
        "<finish>\u{00A0}\u{2003}{\"a\": 1}\u{3000}\n</finish>",
        "text <finish>\r\n[1, 2]\r\n</finish> text ```\ncode\n```",
        "```\u{2028}\nx\n```",
        "```python\r\nx = 1\r\n```",
        "<code>\n  indented\n</code>",
    ];
    for text in samples {
        assert_eq!(extract_code(text), regex_code(text), "code in {:?}", text);
        assert_eq!(extract_finish(text), regex_finish(text), "finish in {:?}", text);
    }
}
