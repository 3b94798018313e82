//! Agent configuration.

use vstd::prelude::*;
use vstd::string::StringExecFns;
use crate::message::{copy_opt, opt_view};

verus! {

/// The model used where none is named.
pub const DEFAULT_MODEL: &'static str = "llama-3.3-70b-versatile";

/// The iteration budget used where none is set.
pub const DEFAULT_MAX_ITERATIONS: usize = 10;

/// The default sampling temperature, 0.7, as the bit pattern of a
/// single-precision float.
pub const DEFAULT_TEMPERATURE: u32 = 0x3F33_3333;

/// The response token cap used where none is set.
pub const DEFAULT_MAX_TOKENS: u32 = 4096;

/// Configuration of an agent. It is set up once and copied, never shared,
/// when an agent is derived for a parallel task.
///
/// The temperature is carried as the bit pattern of a single-precision
/// float: the library hands it on and never computes with it.
#[derive(Clone, Debug, PartialEq)]
pub struct AgentConfig {
    /// The model to use.
    pub model: String,
    /// Maximum number of iterations, each one model call.
    pub max_iterations: usize,
    /// Temperature for sampling.
    pub temperature: Option<u32>,
    /// Maximum tokens of a response.
    pub max_tokens: Option<u32>,
    /// Custom system description, embedded in the prompt template.
    pub system: Option<String>,
    /// Name of the tag whose content is reported as the model's thinking.
    pub thinking_tag: Option<String>,
}

/// The mathematical value of an [`AgentConfig`].
pub struct ConfigView {
    pub model: Seq<char>,
    pub max_iterations: nat,
    pub temperature: Option<u32>,
    pub max_tokens: Option<u32>,
    pub system: Option<Seq<char>>,
    pub thinking_tag: Option<Seq<char>>,
}

impl View for AgentConfig {
    type V = ConfigView;

    open spec fn view(&self) -> ConfigView {
        ConfigView {
            model: self.model@,
            max_iterations: self.max_iterations as nat,
            temperature: self.temperature,
            max_tokens: self.max_tokens,
            system: opt_view(self.system),
            thinking_tag: opt_view(self.thinking_tag),
        }
    }
}

/// The configuration that names `model` and leaves the rest at its default.
pub open spec fn default_config(model: Seq<char>) -> ConfigView {
    ConfigView {
        model,
        max_iterations: DEFAULT_MAX_ITERATIONS as nat,
        temperature: Some(DEFAULT_TEMPERATURE),
        max_tokens: Some(DEFAULT_MAX_TOKENS),
        system: None,
        thinking_tag: None,
    }
}

impl Default for AgentConfig {
    fn default() -> (c: AgentConfig)
        ensures
            c@ == default_config(DEFAULT_MODEL@),
    {
        AgentConfig::new(DEFAULT_MODEL)
    }
}

impl AgentConfig {
    /// A configuration for `model`, the rest at its default.
    pub fn new(model: &str) -> (c: AgentConfig)
        ensures
            c@ == default_config(model@),
    {
        AgentConfig {
            model: String::from_str(model),
            max_iterations: DEFAULT_MAX_ITERATIONS,
            temperature: Some(DEFAULT_TEMPERATURE),
            max_tokens: Some(DEFAULT_MAX_TOKENS),
            system: None,
            thinking_tag: None,
        }
    }

    /// Sets the maximum number of iterations.
    pub fn max_iterations(self, n: usize) -> (c: AgentConfig)
        ensures
            c@ == (ConfigView { max_iterations: n as nat, ..self@ }),
    {
        let mut c = self;
        c.max_iterations = n;
        c
    }

    /// Sets the temperature, given as the bit pattern of a single-precision
    /// float.
    pub fn temperature(self, t: u32) -> (c: AgentConfig)
        ensures
            c@ == (ConfigView { temperature: Some(t), ..self@ }),
    {
        let mut c = self;
        c.temperature = Some(t);
        c
    }

    /// Sets the response token cap.
    pub fn max_tokens(self, n: u32) -> (c: AgentConfig)
        ensures
            c@ == (ConfigView { max_tokens: Some(n), ..self@ }),
    {
        let mut c = self;
        c.max_tokens = Some(n);
        c
    }

    /// Removes the response token cap.
    pub fn no_max_tokens(self) -> (c: AgentConfig)
        ensures
            c@ == (ConfigView { max_tokens: None, ..self@ }),
    {
        let mut c = self;
        c.max_tokens = None;
        c
    }

    /// Sets a custom system description.
    pub fn system(self, system: &str) -> (c: AgentConfig)
        ensures
            c@ == (ConfigView { system: Some(system@), ..self@ }),
    {
        let mut c = self;
        c.system = Some(String::from_str(system));
        c
    }

    /// Names the tag whose content is reported as the model's thinking.
    pub fn thinking_tag(self, tag: &str) -> (c: AgentConfig)
        ensures
            c@ == (ConfigView { thinking_tag: Some(tag@), ..self@ }),
    {
        let mut c = self;
        c.thinking_tag = Some(String::from_str(tag));
        c
    }

    /// A copy of the configuration.
    pub fn copy(&self) -> (c: AgentConfig)
        ensures
            c@ == self@,
    {
        AgentConfig {
            model: self.model.clone(),
            max_iterations: self.max_iterations,
            temperature: self.temperature,
            max_tokens: self.max_tokens,
            system: copy_opt(&self.system),
            thinking_tag: copy_opt(&self.thinking_tag),
        }
    }
}

} // verus!
