use meetily_core::chat::{ChatMessage, ChatMessagesRepository, ChatService};
use meetily_core::engine::TranscriptionEngine;
use meetily_core::heading::extract_meeting_name_from_markdown;
use meetily_core::prompting::{join_with, substitute_all, substitute_first};

fn message(role: &str, content: &str) -> ChatMessage {
    ChatMessage {
        id: "m1".to_string(),
        meeting_id: "meet1".to_string(),
        role: role.to_string(),
        content: content.to_string(),
        created_at: 1_700_000_000_000,
        metadata: None,
    }
}

#[test]
fn context_holds_every_section_in_order() {
    let history = vec![message("user", "What was decided?"), message("assistant", "Budget cut.")];
    let context = ChatService::build_context(
        "Planning",
        "we talked",
        Some("# Summary text"),
        &history,
        "And when?",
    );
    assert_eq!(
        context,
        "# Meeting Title\nPlanning\n\n\
         # Transcript\nwe talked\n\n\
         # Summary\n# Summary text\n\n\
         # Previous Conversation\n\
         User: What was decided?\n\n\
         Assistant: Budget cut.\n\n\
         # Current Question\nAnd when?"
    );
}

#[test]
fn context_omits_missing_summary_and_history() {
    let context = ChatService::build_context("T", "talk", None, &Vec::new(), "Q?");
    assert_eq!(context, "# Meeting Title\nT\n\n# Transcript\ntalk\n\n# Current Question\nQ?");
}

#[test]
fn english_system_prompt_carries_the_date() {
    let p = ChatService::build_system_prompt("en", "2026-10-12");
    assert_eq!(
        p,
        "You are an AI assistant helping users understand their meeting notes. \
         Today's date is 2026-10-12. You have access to the meeting transcript, summary, \
         and previous conversation history. Answer questions accurately based on the \
         context provided. If information is not in the context, say so clearly. \
         Be concise but comprehensive in your responses. Respond in English."
    );
}

#[test]
fn other_languages_get_the_portuguese_prompt() {
    let p = ChatService::build_system_prompt("pt-BR", "2026-10-12");
    assert!(p.starts_with("Você é um assistente de IA"));
    assert!(p.contains("2026-10-12"));
    assert!(p.ends_with("Responda em português do Brasil."));
}

#[test]
fn summary_usable_only_when_completed() {
    let md = Some("# Report".to_string());
    assert_eq!(ChatService::usable_summary("completed", md.clone()), md);
    assert_eq!(ChatService::usable_summary("running", md.clone()), None);
    assert_eq!(ChatService::usable_summary("failed", Some("x".to_string())), None);
    assert_eq!(ChatService::usable_summary("completed", None), None);
}

#[test]
fn meeting_id_must_not_be_blank() {
    assert!(!ChatMessagesRepository::meeting_id_valid(""));
    assert!(!ChatMessagesRepository::meeting_id_valid("   \t\n"));
    assert!(ChatMessagesRepository::meeting_id_valid("meeting-42"));
    assert!(ChatMessagesRepository::meeting_id_valid("  x  "));
}

#[test]
fn only_user_and_assistant_roles_are_stored() {
    assert!(ChatMessagesRepository::role_valid("user"));
    assert!(ChatMessagesRepository::role_valid("assistant"));
    assert!(!ChatMessagesRepository::role_valid("system"));
    assert!(!ChatMessagesRepository::role_valid("User"));
    assert!(!ChatMessagesRepository::role_valid(""));
}

#[test]
fn engine_reports_its_provider_name() {
    assert_eq!(TranscriptionEngine::Parakeet.provider_name(), "Parakeet (ONNX)");
    let custom = TranscriptionEngine::Provider("CloudScribe".to_string());
    assert_eq!(custom.provider_name(), "CloudScribe");
}

#[test]
fn meeting_name_comes_from_the_first_heading() {
    assert_eq!(
        extract_meeting_name_from_markdown("# Planning Meeting\n\nnotes"),
        Some("Planning Meeting".to_string())
    );
    assert_eq!(
        extract_meeting_name_from_markdown("intro line\n# Standup\r\nrest"),
        Some("Standup".to_string())
    );
}

#[test]
fn meeting_name_skips_deeper_headings() {
    assert_eq!(
        extract_meeting_name_from_markdown("## Subsection\n# Real Title\n"),
        Some("Real Title".to_string())
    );
}

#[test]
fn repeated_heading_marks_are_stripped() {
    assert_eq!(extract_meeting_name_from_markdown("# # Doubled"), Some("Doubled".to_string()));
}

#[test]
fn no_heading_gives_no_name() {
    assert_eq!(extract_meeting_name_from_markdown("plain text only"), None);
    assert_eq!(extract_meeting_name_from_markdown(""), None);
    assert_eq!(extract_meeting_name_from_markdown("#no space"), None);
}

#[test]
fn substitution_replaces_placeholders() {
    assert_eq!(substitute_first("a {} b {}", "X"), "a X b {}");
    assert_eq!(substitute_all("a {} b {}", "X"), "a X b X");
    assert_eq!(substitute_all("no placeholder", "X"), "no placeholder");
    // substituted text is not rescanned
    assert_eq!(substitute_first("only {} here", "{}"), "only {} here");
}

#[test]
fn join_separates_neighbours_only() {
    assert_eq!(join_with(&Vec::<String>::new(), "\n---\n"), "");
    assert_eq!(join_with(&vec!["a".to_string()], "\n---\n"), "a");
    assert_eq!(
        join_with(&vec!["a".to_string(), "b".to_string(), "c".to_string()], "\n---\n"),
        "a\n---\nb\n---\nc"
    );
}
