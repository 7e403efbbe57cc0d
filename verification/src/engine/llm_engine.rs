//! The prompt that sets the engine's task, and where the key of each
//! backend is kept.

use vstd::prelude::*;

verus! {

/// The services that can answer.
#[derive(Clone, Copy, Debug, PartialEq, Eq, Structural)]
pub enum Backend {
    OpenAI,
    Anthropic,
    Ollama,
    DeepSeek,
    XAI,
    Phind,
    Google,
    Groq,
}

/// The name under which the key of `backend` is kept, in the secret store
/// and in the environment; `None` for a backend that needs no key.
pub open spec fn key_name(backend: Backend) -> Option<Seq<char>> {
    match backend {
        Backend::OpenAI => Some("OPENAI_API_KEY"@),
        Backend::Anthropic => Some("ANTHROPIC_API_KEY"@),
        Backend::DeepSeek => Some("DEEPSEEK_API_KEY"@),
        Backend::XAI => Some("XAI_API_KEY"@),
        Backend::Google => Some("GOOGLE_API_KEY"@),
        Backend::Groq => Some("GROQ_API_KEY"@),
        Backend::Ollama => None,
        Backend::Phind => None,
    }
}

/// The name under which the key of `backend` is kept: see [`key_name`].
pub fn api_key_name(backend: Backend) -> (r: Option<&'static str>)
    ensures
        match r {
            Some(name) => key_name(backend) == Some(name@),
            None => key_name(backend) is None,
        },
{
    match backend {
        Backend::OpenAI => Some("OPENAI_API_KEY"),
        Backend::Anthropic => Some("ANTHROPIC_API_KEY"),
        Backend::DeepSeek => Some("DEEPSEEK_API_KEY"),
        Backend::XAI => Some("XAI_API_KEY"),
        Backend::Google => Some("GOOGLE_API_KEY"),
        Backend::Groq => Some("GROQ_API_KEY"),
        Backend::Ollama => None,
        Backend::Phind => None,
    }
}

/// The key to use, given what the secret store and the environment hold
/// under the backend's key name: the store's, else the environment's.
pub fn get_api_key(stored: Option<String>, environment: Option<String>) -> (key: Option<String>)
    ensures
        key == if stored is Some {
            stored
        } else {
            environment
        },
{
    match stored {
        Some(key) => Some(key),
        None => environment,
    }
}

/// The task that the engine is set before it sees a prompt.
pub struct SystemPrompt {
    pub prompt: String,
}

/// The text of the task.
pub open spec fn system_prompt_text() -> Seq<char> {
    "\n            Check the provided rule, surrounded by <rule> tags, against the subsequent piece of code,\n            surrounded by <code> tags. \n            Make sure you are as fastidious as possible. \n            Quote the beginning of every potential violation.\n            Include the specific way in which the code instance violates the rule.\n            Be as brief as possible.\n            The response should be one valid json object, containing a list of tuples where each tuple \n            is a pair of rule with its corresponding violation.\n            "@
}

impl Default for SystemPrompt {
    fn default() -> (r: Self)
        ensures
            r.prompt@ == system_prompt_text(),
    {
        Self {
            prompt: "\n            Check the provided rule, surrounded by <rule> tags, against the subsequent piece of code,\n            surrounded by <code> tags. \n            Make sure you are as fastidious as possible. \n            Quote the beginning of every potential violation.\n            Include the specific way in which the code instance violates the rule.\n            Be as brief as possible.\n            The response should be one valid json object, containing a list of tuples where each tuple \n            is a pair of rule with its corresponding violation.\n            ".to_owned(),
        }
    }
}

impl SystemPrompt {
    /// The task's text.
    pub fn into_string(self) -> (r: String)
        ensures
            r == self.prompt,
    {
        self.prompt
    }
}

} // verus!
