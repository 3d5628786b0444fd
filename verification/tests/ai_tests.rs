use discord_bot::ai::{
    build_chat_messages, channel_context, finish_response, format_citations_for_discord, parse_response, AiMessage,
    AiProviderResponse, ChannelMessage, Citation,
};
use discord_bot::ai_context::{estimate_tokens, relevance_level, select_context, ContextMessage, ContextSelector};

fn msg(role: &str, content: &str, timestamp: u64, author: &str) -> ContextMessage {
    ContextMessage::new(role.to_string(), content.to_string(), timestamp, author.to_string())
}

fn calculate_relevance(m: &ContextMessage, keywords: &[&str]) -> f32 {
    let kws: Vec<String> = keywords.iter().map(|k| k.to_string()).collect();
    relevance_level(m, &kws) as f32 / 5.0
}

#[test]
fn test_estimate_tokens() {
    assert_eq!(estimate_tokens(""), 0);
    assert_eq!(estimate_tokens("hi"), 1);
    assert_eq!(estimate_tokens("hello world"), 3);
}

#[test]
fn test_calculate_relevance_no_matches() {
    let m = msg("user", "hello there", 1000, "User");
    let score = calculate_relevance(&m, &["fiefdom", "project"]);
    assert_eq!(score, 0.0);
}

#[test]
fn test_calculate_relevance_with_matches() {
    let m = msg("user", "I need help with the project fiefdom bug", 1000, "User");
    let score = calculate_relevance(&m, &["fiefdom", "project", "help", "bug"]);
    assert!(score > 0.5);
}

#[test]
fn relevance_is_capped_at_five_matches() {
    let m = msg("user", "a b c d e f g", 1, "U");
    let kws: Vec<String> = ["a", "b", "c", "d", "e", "f", "g"].iter().map(|k| k.to_string()).collect();
    assert_eq!(relevance_level(&m, &kws), 5);
}

#[test]
fn relevance_ignores_case() {
    let m = msg("user", "The PROJECT is late", 1, "U");
    let kws = vec!["project".to_string()];
    assert_eq!(relevance_level(&m, &kws), 1);
}

#[test]
fn test_select_context_empty() {
    let result = select_context(vec![], 1000);
    assert!(result.is_empty());
}

#[test]
fn test_select_context_keeps_recent() {
    let messages: Vec<ContextMessage> = (0..10).map(|i| msg("user", &format!("Message {}", i), i as u64, "User")).collect();
    let result = select_context(messages, 1000);
    assert!(result.len() >= 5);
    let last = result.last().unwrap();
    assert!(last.content.contains("Message 9"));
}

#[test]
fn test_select_context_respects_budget() {
    let messages: Vec<ContextMessage> = (0..20).map(|i| msg("user", &"x".repeat(100), i as u64, "User")).collect();
    let result = select_context(messages, 200);
    assert!(result.len() <= 10);
}

#[test]
fn selection_is_chronological_whatever_the_input_order() {
    let messages = vec![msg("user", "third", 30, "A"), msg("user", "first", 10, "A"), msg("assistant", "second", 20, "")];
    let result = select_context(messages, 1000);
    let contents: Vec<&str> = result.iter().map(|m| m.content.as_str()).collect();
    assert_eq!(contents, vec!["A: first", "second", "A: third"]);
}

#[test]
fn selection_keeps_latest_even_over_budget() {
    // Each message is ~25 tokens; the budget of 10 is below the five latest alone.
    let messages: Vec<ContextMessage> = (0..8).map(|i| msg("assistant", &"y".repeat(100), i as u64, "")).collect();
    let result = select_context(messages, 10);
    assert_eq!(result.len(), 5);
}

#[test]
fn selection_with_zero_budget_keeps_only_latest() {
    let messages: Vec<ContextMessage> = (0..7).map(|i| msg("assistant", &format!("m{}", i), i as u64, "")).collect();
    let result = select_context(messages, 0);
    let contents: Vec<&str> = result.iter().map(|m| m.content.as_str()).collect();
    assert_eq!(contents, vec!["m2", "m3", "m4", "m5", "m6"]);
}

#[test]
fn selector_prefers_relevant_older_messages() {
    // The five latest take 5 tokens; the budget leaves room for three more, which the
    // relevant older message (3 tokens) fills before the irrelevant one is considered.
    let selector = ContextSelector { max_tokens: 8, always_keep_recent: 5, keywords: vec!["deploy".to_string()] };
    let mut messages = vec![msg("assistant", "nothing", 1, ""), msg("assistant", "deploy now", 2, "")];
    for i in 0..5 {
        messages.push(msg("assistant", "ok", 10 + i, ""));
    }
    let result = selector.select(messages);
    assert_eq!(result.len(), 6);
    assert_eq!(result[0].content, "deploy now");
    assert!(result.iter().all(|m| m.content != "nothing"));
}

#[test]
fn test_to_ai_message_includes_author() {
    let m = msg("user", "Hello", 1000, "Alice");
    let ai = m.to_ai_message();
    assert_eq!(ai.content, "Alice: Hello");
}

#[test]
fn test_to_ai_message_assistant_no_author() {
    let m = msg("assistant", "Hello back", 1000, "");
    let ai = m.to_ai_message();
    assert_eq!(ai.content, "Hello back");
}

#[test]
fn test_empty_citations() {
    assert!(format_citations_for_discord(&vec![]).is_none());
}

#[test]
fn test_single_citation() {
    let citations = vec![Citation { title: Some("Test Article".to_string()), url: "https://example.com".to_string() }];
    let result = format_citations_for_discord(&citations).unwrap();
    assert!(result.contains("Sources:"));
    assert!(result.contains("[Test Article](https://example.com)"));
}

#[test]
fn test_citation_without_title() {
    let citations = vec![Citation { title: None, url: "https://example.com".to_string() }];
    let result = format_citations_for_discord(&citations).unwrap();
    assert!(result.contains("[Source](https://example.com)"));
}

#[test]
fn test_max_citations_limit() {
    let citations: Vec<Citation> = (0..10)
        .map(|i| Citation { title: Some(format!("Article {}", i)), url: format!("https://example{}.com", i) })
        .collect();
    let result = format_citations_for_discord(&citations).unwrap();
    assert!(result.contains("Article 0"));
    assert!(result.contains("Article 4"));
    assert!(!result.contains("Article 5"));
    assert!(result.contains("...and 5 more sources"));
}

#[test]
fn chat_messages_start_with_the_system_prompt() {
    let context = vec![AiMessage { role: "user".to_string(), content: "hi".to_string() }];
    let all = build_chat_messages("be nice", &context);
    assert_eq!(all.len(), 2);
    assert_eq!(all[0].role, "system");
    assert_eq!(all[0].content, "be nice");
    assert_eq!(all[1].content, "hi");
}

#[test]
fn response_tags_are_split_off() {
    let (answer, reasoning) = parse_response("<rationale> step one </rationale><answer> The answer </answer>");
    assert_eq!(answer, "The answer");
    assert_eq!(reasoning.as_deref(), Some("step one"));
    let (plain, none) = parse_response("  just text ");
    assert_eq!(plain, "  just text ");
    assert!(none.is_none());
}

#[test]
fn closing_tag_before_opening_tag_is_ignored() {
    let (answer, _) = parse_response("</answer>x<answer>");
    assert_eq!(answer, "</answer>x<answer>");
}

#[test]
fn provider_thinking_takes_precedence() {
    let r = finish_response(AiProviderResponse {
        content: "<rationale>inline</rationale>Answer".to_string(),
        thinking: Some("separate".to_string()),
    });
    assert_eq!(r.reasoning.as_deref(), Some("separate"));
    let r2 = finish_response(AiProviderResponse { content: "<rationale>inline</rationale>Answer".to_string(), thinking: None });
    assert_eq!(r2.reasoning.as_deref(), Some("inline"));
}

#[test]
fn channel_context_skips_bots_and_orders_oldest_first() {
    let newest_first = vec![
        ChannelMessage { author_name: "Bob".to_string(), author_is_bot: false, content: "second".to_string(), timestamp: 2 },
        ChannelMessage { author_name: "Bot".to_string(), author_is_bot: true, content: "noise".to_string(), timestamp: 1 },
        ChannelMessage { author_name: "Ann".to_string(), author_is_bot: false, content: "first".to_string(), timestamp: 0 },
    ];
    let ctx = channel_context(Some("general".to_string()), 7, &newest_first);
    let texts: Vec<&str> = ctx.iter().map(|m| m.content.as_str()).collect();
    assert!(texts.iter().all(|t| !t.contains("noise")));
    let first = texts.iter().position(|t| t.contains("first")).unwrap();
    let second = texts.iter().position(|t| t.contains("second")).unwrap();
    assert!(first < second);
}
