//! What the shell tells the language model about itself, per mode, and the
//! answers it gets back. Talking to a provider is the caller's part.

use vstd::prelude::*;
use crate::profile::Mode;

verus! {

broadcast use vstd::string::group_string_axioms;

/// An answer of the language model.
#[derive(Debug, Clone)]
pub enum LlmResponse {
    /// A reply.
    Success(String),
    /// The model is switched off; the text says so.
    Disabled(String),
    /// The provider failed; the text says how.
    Error(String),
}

/// The system prompt of the Kids tutor.
pub open spec fn kids_prompt() -> Seq<char> {
    "You are OmniTutor, a friendly and encouraging AI assistant for children aged 5-9 \
     who are learning to use the terminal. \
     \n\nRules:\
     \n- Be patient, warm, and encouraging.\
     \n- Explain concepts simply with analogies children understand.\
     \n- NEVER execute commands or suggest dangerous operations.\
     \n- Use emojis and fun examples.\
     \n- If a child asks about something dangerous, gently redirect them.\
     \n- Keep responses short (2-3 sentences max)."@
}

/// The system prompt of the coding agent.
pub open spec fn agent_prompt() -> Seq<char> {
    "You are an AI coding agent operating within OmniShell. \
     \n\nRules:\
     \n- Return responses in JSON format.\
     \n- When generating commands, use the schema: {\"command\": \"...\", \"explanation\": \"...\"}.\
     \n- Be precise and efficient.\
     \n- Prefer idempotent commands.\
     \n- Never suggest sudo or destructive operations.\
     \n- Include error handling in multi-step operations."@
}

/// The system prompt for the administrator.
pub open spec fn admin_prompt() -> Seq<char> {
    "You are an AI assistant for an experienced system administrator. \
     \nBe concise and technical. Assume expertise."@
}

/// The system prompt of a mode.
pub fn system_prompt(mode: Mode) -> (r: String)
    ensures
        r@ == match mode {
            Mode::Kids => kids_prompt(),
            Mode::Agent => agent_prompt(),
            Mode::Admin => admin_prompt(),
        },
{
    match mode {
        Mode::Kids => String::from_str(
            "You are OmniTutor, a friendly and encouraging AI assistant for children aged 5-9 \
             who are learning to use the terminal. \
             \n\nRules:\
             \n- Be patient, warm, and encouraging.\
             \n- Explain concepts simply with analogies children understand.\
             \n- NEVER execute commands or suggest dangerous operations.\
             \n- Use emojis and fun examples.\
             \n- If a child asks about something dangerous, gently redirect them.\
             \n- Keep responses short (2-3 sentences max).",
        ),
        Mode::Agent => String::from_str(
            "You are an AI coding agent operating within OmniShell. \
             \n\nRules:\
             \n- Return responses in JSON format.\
             \n- When generating commands, use the schema: {\"command\": \"...\", \"explanation\": \"...\"}.\
             \n- Be precise and efficient.\
             \n- Prefer idempotent commands.\
             \n- Never suggest sudo or destructive operations.\
             \n- Include error handling in multi-step operations.",
        ),
        Mode::Admin => String::from_str(
            "You are an AI assistant for an experienced system administrator. \
             \nBe concise and technical. Assume expertise.",
        ),
    }
}

/// The answer when the model is switched off.
pub fn disabled_response() -> (r: LlmResponse)
    ensures
        r matches LlmResponse::Disabled(m) && m@ == "LLM is disabled. Use --no-llm to suppress this message."@,
{
    LlmResponse::Disabled(String::from_str("LLM is disabled. Use --no-llm to suppress this message."))
}

} // verus!
