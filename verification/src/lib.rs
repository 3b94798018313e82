//! An orchestration loop that drives a language model through a
//! "write code, observe output, repeat" protocol until it produces a final
//! structured answer.
//!
//! The model is an opaque text-completion service and the code that it
//! writes runs in a sandbox; both belong to the caller. This crate is the
//! loop between them: the conversation log, the parser that reads a
//! response, the rendering of what an execution gave, the resolution of a
//! finish against an optional schema with corrective feedback, the context
//! store that hands results from one agent to another, and the fan-out of
//! one agent over many tasks.

pub mod agent;
pub mod config;
pub mod context;
pub mod error;
pub mod events;
pub mod json;
pub mod laws;
pub mod message;
pub mod parallel;
pub mod parser;
pub mod prompt;
pub mod schema;
pub mod text;
pub mod value;
pub mod verbose;

pub use agent::{
    has_finish_tool, render_execution, Action, Agent, Mode, Origin, Output, Pending, Step,
};
pub use config::AgentConfig;
pub use context::Context;
pub use error::{Error, Result};
pub use events::{verbose_callbacks, AgentCallbacks, AgentEvent, EventKind, Slot};
pub use json::{json_to_pyvalue, pyvalue_to_json, Json};
pub use message::{Message, Role};
pub use parallel::{Job, MapBoard};
pub use parser::{extract_code, extract_finish, extract_thinking, parse_response, Parsed};
pub use schema::{judge_schema, report_schema_failure, SchemaIssue};
pub use value::{finish_output, format_pyvalue, pyvalue_to_string, PyValue};
pub use verbose::verbose_line;
