use rategate::context_extraction::estimate_token_count;
use rategate::context_extraction::ContextMessageVariant;
use rategate::context_extraction::InvocationContextSettings;
use rategate::context_extraction::LimitTracker;
use rategate::context_extraction::MessageData;
use rategate::mcp::McpManager;
use rategate::mcp_config::McpConfig;
use rategate::mcp_config::McpServerConfig;

fn settings() -> InvocationContextSettings {
    InvocationContextSettings {
        max_token_count: 10,
        max_channel_history: Some(2),
        reply_chain_depth: Some(2),
        reply_chain_window: Some(5),
        reply_chain_max_token_count: Some(4),
    }
}

fn msg(id: u64, content: &str) -> MessageData {
    MessageData { id, content: content.to_string() }
}

#[test]
fn token_estimate_counts_six_characters_per_token() {
    assert_eq!(estimate_token_count(""), 0);
    assert_eq!(estimate_token_count("abcde"), 0);
    assert_eq!(estimate_token_count("abcdef"), 1);
    assert_eq!(estimate_token_count("abcdefabcdef"), 2);
}

#[test]
fn tracker_starts_at_zero() {
    let tracker = LimitTracker::new();
    assert_eq!(tracker.tokens, 0);
    assert_eq!(tracker.reply_chain_tokens, 0);
    assert_eq!(tracker.history_count, 0);
    assert_eq!(tracker.reply_chain_count, 0);
}

#[test]
fn initial_message_counts_twice() {
    let mut tracker = LimitTracker::new();
    let s = settings();
    // twelve characters estimate two tokens, counted twice for the opener
    let entry = ContextMessageVariant::Initial(msg(1, "abcdefabcdef"));
    assert!(tracker.add_message(&entry, &s));
    assert_eq!(tracker.tokens, 4);
    assert_eq!(tracker.reply_chain_tokens, 0);
}

#[test]
fn history_message_counts_once_and_increments_history() {
    let mut tracker = LimitTracker::new();
    let s = settings();
    let entry = ContextMessageVariant::History(msg(2, "abcdef"));
    assert!(tracker.add_message(&entry, &s));
    assert_eq!(tracker.tokens, 1);
    assert_eq!(tracker.history_count, 1);
    assert_eq!(tracker.reply_chain_count, 0);
}

#[test]
fn reply_message_feeds_both_token_counters() {
    let mut tracker = LimitTracker::new();
    let s = settings();
    let entry = ContextMessageVariant::Reply(msg(3, "abcdefabcdef"));
    assert!(tracker.add_message(&entry, &s));
    assert_eq!(tracker.tokens, 2);
    assert_eq!(tracker.reply_chain_tokens, 2);
    assert_eq!(tracker.reply_chain_count, 1);

    let window = ContextMessageVariant::ReplyWindow(msg(4, "abcdef"));
    assert!(tracker.add_message(&window, &s));
    assert_eq!(tracker.tokens, 3);
    assert_eq!(tracker.reply_chain_tokens, 3);
    assert_eq!(tracker.reply_chain_count, 1);
}

#[test]
fn rejected_message_leaves_counters_unchanged() {
    let mut tracker = LimitTracker::new();
    let s = settings();
    // the history ceiling is two
    assert!(tracker.add_message(&ContextMessageVariant::History(msg(5, "x")), &s));
    assert!(tracker.add_message(&ContextMessageVariant::History(msg(6, "y")), &s));
    assert!(!tracker.add_message(&ContextMessageVariant::History(msg(7, "z")), &s));
    assert_eq!(tracker.history_count, 2);
    assert_eq!(tracker.tokens, 0);
}

#[test]
fn reply_chain_token_ceiling_binds() {
    let mut tracker = LimitTracker::new();
    let s = settings();
    // four reply-chain tokens are allowed; a fifth is rejected
    let big = ContextMessageVariant::Reply(msg(8, "abcdefabcdefabcdefabcdef"));
    assert!(tracker.add_message(&big, &s));
    assert_eq!(tracker.reply_chain_tokens, 4);
    let one_more = ContextMessageVariant::ReplyWindow(msg(9, "abcdef"));
    assert!(!tracker.add_message(&one_more, &s));
    assert_eq!(tracker.reply_chain_tokens, 4);
}

#[test]
fn within_limits_checks_every_ceiling() {
    let tracker = LimitTracker::new();
    let s = settings();
    assert!(tracker.is_within_limits(&s));

    let over = LimitTracker { tokens: 11, ..tracker };
    assert!(!over.is_within_limits(&s));
}

#[test]
fn variant_id_returns_the_message_id() {
    assert_eq!(ContextMessageVariant::Initial(msg(10, "a")).id(), 10);
    assert_eq!(ContextMessageVariant::Reply(msg(11, "b")).id(), 11);
    assert_eq!(ContextMessageVariant::ReplyWindow(msg(12, "c")).id(), 12);
    assert_eq!(ContextMessageVariant::History(msg(13, "d")).id(), 13);
}

#[test]
fn http_server_has_a_connection_url() {
    let server = McpServerConfig::Http {
        url: "http://example.com".to_string(),
        headers: vec![("Authorization".to_string(), "Bearer test".to_string())],
    };
    assert!(server.is_http_based());
    assert_eq!(server.get_connection_url(), Some("http://example.com"));
}

#[test]
fn sse_server_has_a_connection_url() {
    let server = McpServerConfig::Sse {
        url: "http://example.com/sse".to_string(),
        headers: vec![],
    };
    assert!(server.is_http_based());
    assert_eq!(server.get_connection_url(), Some("http://example.com/sse"));
}

#[test]
fn stdio_server_has_no_connection_url() {
    let server = McpServerConfig::Stdio {
        command: "node server.js".to_string(),
        args: None,
        env: vec![],
    };
    assert!(!server.is_http_based());
    assert_eq!(server.get_connection_url(), None);
}

#[test]
fn manager_keeps_the_configuration() {
    let config = McpConfig {
        servers: vec![(
            "local-tool".to_string(),
            McpServerConfig::Stdio {
                command: "python".to_string(),
                args: Some(vec!["-m".to_string(), "server".to_string()]),
                env: vec![("MCP_DEBUG".to_string(), "1".to_string())],
            },
        )],
    };
    let manager = McpManager::new(config);
    assert_eq!(manager.config.servers.len(), 1);
    assert_eq!(manager.config.servers[0].0, "local-tool");
}
