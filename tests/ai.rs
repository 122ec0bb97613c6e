use sempyver::ai::{
    build_prompt, clean_response, prompt_for_change, response_text, AIConfig, AIProvider,
};

#[test]
fn provider_names_in_any_case() {
    assert_eq!(AIProvider::from_name("openai"), Ok(AIProvider::OpenAI));
    assert_eq!(AIProvider::from_name("OpenAI"), Ok(AIProvider::OpenAI));
    assert_eq!(AIProvider::from_name("GEMINI"), Ok(AIProvider::Gemini));
    assert_eq!(
        AIProvider::from_name("Mistral"),
        Err("Unsupported AI provider: Mistral".to_string())
    );
}

#[test]
fn config_is_built_from_plain_values() {
    let config = AIConfig::build("Gemini", "SECRET-REDACTED".to_string(), "m1".to_string()).unwrap();
    assert_eq!(config.provider, AIProvider::Gemini);
    assert_eq!(config.api_key, "SECRET-REDACTED");
    assert_eq!(config.model, "m1");
    assert!(AIConfig::build("other", String::new(), String::new()).is_err());
}

#[test]
fn replies_are_cleaned_to_one_line() {
    assert_eq!(clean_response("  \n Feature: add export \nmore text\n"), "Feature: add export");
    assert_eq!(clean_response("\u{3000}Bug: fix\u{a0}\r\n"), "Bug: fix");
    assert_eq!(clean_response(""), "");
    assert_eq!(clean_response(" \t\n "), "");
}

#[test]
fn prompt_names_the_change() {
    let prompt = build_prompt("MINOR", "Feature", "src/a.rs", "2 files changed");
    assert!(prompt.starts_with(
        "Generate a changeset message that follows the conventional commit format for a semantic version change. Details:\n- Change Type: MINOR\n- Tag: Feature\n- Module: src/a.rs\n- Changes: 2 files changed\n\nThe message should:\n1. Start"
    ));
    assert!(prompt.ends_with("Return ONLY the message, no additional text."));
}

#[test]
fn prompt_uses_diff_summary_or_default() {
    let with_diff = prompt_for_change("PATCH", "Bug", "m", Some("+fn fixed() {}\n"));
    assert!(with_diff.contains("- Changes: fn fixed() {}\n\n"));
    let without = prompt_for_change("PATCH", "Bug", "m", None);
    assert!(without.contains("- Changes: recent changes\n"));
}

#[test]
fn reply_text_is_read_from_the_answer() {
    let openai = r#"{"choices":[{"message":{"role":"assistant","content":"Feature: add x"}}]}"#;
    assert_eq!(response_text(AIProvider::OpenAI, openai), Ok("Feature: add x".to_string()));
    let gemini = r#"{"candidates":[{"content":{"parts":[{"text":"Bug: fix y"}]}}]}"#;
    assert_eq!(response_text(AIProvider::Gemini, gemini), Ok("Bug: fix y".to_string()));
    let missing = "Failed to extract content from response".to_string();
    assert_eq!(response_text(AIProvider::Gemini, openai), Err(missing.clone()));
    assert_eq!(response_text(AIProvider::OpenAI, "not json"), Err(missing));
}
