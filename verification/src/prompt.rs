//! The system prompt that tells the model how to answer.

use vstd::prelude::*;
use vstd::string::StringExecFns;
use crate::text::{replace_all, replaced};

verus! {

/// Marker that the finish capability puts before its answer in the output
/// of an execution.
pub const FINISH_MARKER: &'static str = "___FINISH___:";

/// The system description used where the configuration gives none.
pub const DEFAULT_SYSTEM: &'static str =
    "You are an AI assistant that solves tasks by writing and executing Python code.";

/// What stands in the prompt where no tool is registered.
pub const NO_TOOLS: &'static str = "No tools available.";

/// The prompt template; `{system}` and `{tools}` are filled in.
pub const SYSTEM_PROMPT_TEMPLATE: &'static str = r#"{system}

<functions>
{tools}
</functions>

<format>
To execute code, write it in a <code> block or ```python block:

<code>
result = some_function(arg1, arg2)
print(result)
</code>

To return structured data directly, use a <finish> block:

<finish>
{"key": "value", "items": [1, 2, 3]}
</finish>
</format>

<rules>
- Write ONE code block per response, then STOP and wait for results
- Do NOT assume or predict output - you will see actual results after execution
- Only use functions listed above - no imports allowed
- Use print() to see values
- Variables persist between executions
- When done, either call finish(answer) in code OR use a <finish>JSON</finish> block for structured output
</rules>
"#;

/// The tool documentation as it stands in the prompt: the description that
/// the sandbox gives, or a fixed sentence where it gives none.
pub open spec fn tool_docs_text(described: Seq<char>) -> Seq<char> {
    if described.len() == 0 {
        NO_TOOLS@
    } else {
        described
    }
}

/// The system description in force: the custom one, or the default.
pub open spec fn system_text(custom: Option<Seq<char>>) -> Seq<char> {
    match custom {
        Some(s) => s,
        None => DEFAULT_SYSTEM@,
    }
}

/// The system prompt: the template with the system description put in
/// first and the tool documentation second.
pub open spec fn system_prompt_text(custom: Option<Seq<char>>, described: Seq<char>) -> Seq<
    char,
> {
    replaced(
        replaced(SYSTEM_PROMPT_TEMPLATE@, "{system}"@, system_text(custom)),
        "{tools}"@,
        tool_docs_text(described),
    )
}

/// The tool documentation for the prompt, from the sandbox's description of
/// its tools.
pub fn tool_docs(described: &str) -> (s: String)
    ensures
        s@ == tool_docs_text(described@),
{
    if described.unicode_len() == 0 {
        String::from_str(NO_TOOLS)
    } else {
        String::from_str(described)
    }
}

/// Builds the system prompt from the custom system description, if any, and
/// the sandbox's description of its tools.
pub fn system_prompt(custom: &Option<String>, described: &str) -> (s: String)
    ensures
        s@ == system_prompt_text(crate::message::opt_view(*custom), described@),
{
    let docs = tool_docs(described);
    let with_system = match custom {
        Some(system) => replace_all(SYSTEM_PROMPT_TEMPLATE, "{system}", system.as_str()),
        None => replace_all(SYSTEM_PROMPT_TEMPLATE, "{system}", DEFAULT_SYSTEM),
    };
    replace_all(with_system.as_str(), "{tools}", docs.as_str())
}

} // verus!
