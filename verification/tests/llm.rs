//! System prompts and model answers.

use omnishell::llm_integration::{disabled_response, system_prompt, LlmResponse};
use omnishell::profile::Mode;

#[test]
fn test_system_prompt_kids() {
    let prompt = system_prompt(Mode::Kids);
    assert!(prompt.contains("OmniTutor"));
    assert!(prompt.contains("children"));
    assert!(prompt.contains("NEVER execute"));
}

#[test]
fn test_system_prompt_agent() {
    let prompt = system_prompt(Mode::Agent);
    assert!(prompt.contains("JSON format"));
    assert!(prompt.contains("coding agent"));
}

#[test]
fn test_system_prompt_admin() {
    let prompt = system_prompt(Mode::Admin);
    assert!(prompt.contains("system administrator"));
}

#[test]
fn test_system_prompt_contains_mode_specific_content() {
    let kids = system_prompt(Mode::Kids);
    assert!(kids.contains("OmniTutor"), "Kids prompt should mention OmniTutor");
    assert!(kids.contains("NEVER execute"), "Kids prompt should forbid execution");
    assert!(kids.contains("5-9"), "Kids prompt should specify age range");

    let agent = system_prompt(Mode::Agent);
    assert!(agent.contains("JSON format"), "Agent prompt should require JSON");
    assert!(agent.contains("coding agent"), "Agent prompt should identify as coding agent");
    assert!(agent.contains("sudo"), "Agent prompt should forbid sudo");

    let admin = system_prompt(Mode::Admin);
    assert!(admin.contains("system administrator"), "Admin prompt should be for sysadmin");
}

#[test]
fn test_system_prompts_are_distinct() {
    let kids = system_prompt(Mode::Kids);
    let agent = system_prompt(Mode::Agent);
    let admin = system_prompt(Mode::Admin);
    assert_ne!(kids, agent);
    assert_ne!(agent, admin);
    assert_ne!(kids, admin);
}

#[test]
fn test_system_prompts_have_sufficient_guidance() {
    for mode in [Mode::Kids, Mode::Agent, Mode::Admin] {
        let prompt = system_prompt(mode);
        assert!(prompt.len() > 50, "{mode:?} prompt should have meaningful content");
    }
}

#[test]
fn test_kids_prompt_emoji_friendly() {
    let prompt = system_prompt(Mode::Kids);
    assert!(prompt.len() > 200, "Kids prompt should be detailed");
}

#[test]
fn test_agent_prompt_mentions_json_schema() {
    let prompt = system_prompt(Mode::Agent);
    assert!(prompt.contains("command"), "Agent prompt should define command schema");
    assert!(prompt.contains("explanation"), "Agent prompt should define explanation field");
}

#[test]
fn test_llm_response_variants_cover_all_cases() {
    let success = LlmResponse::Success("test".to_string());
    let disabled = LlmResponse::Disabled("test".to_string());
    let error = LlmResponse::Error("test".to_string());

    assert!(matches!(success, LlmResponse::Success(_)));
    assert!(matches!(disabled, LlmResponse::Disabled(_)));
    assert!(matches!(error, LlmResponse::Error(_)));
}

#[test]
fn prompts_exact_text() {
    assert_eq!(
        system_prompt(Mode::Admin),
        "You are an AI assistant for an experienced system administrator. \nBe concise and technical. Assume expertise."
    );
    assert!(system_prompt(Mode::Kids).starts_with("You are OmniTutor, a friendly and encouraging AI assistant for children aged 5-9 who are learning to use the terminal. \n\nRules:\n- Be patient"));
    match disabled_response() {
        LlmResponse::Disabled(m) => assert!(m.contains("disabled")),
        other => panic!("unexpected {other:?}"),
    }
}
