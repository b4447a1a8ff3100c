use cosmic_sim::ai::computer::{
    classify_stream_line, error_message, error_text, reply_text, stream_chunk, stream_delta,
    ContentBlock, Message, ShipComputer, StreamLine, MAX_CONTEXT_EXCHANGES,
};

fn msg(role: &str, content: &str) -> Message {
    Message { role: role.to_string(), content: content.to_string() }
}

fn contents(ms: &[Message]) -> Vec<String> {
    ms.iter().map(|m| m.content.clone()).collect()
}

#[test]
fn new_computer_is_empty() {
    let c = ShipComputer::new();
    assert!(c.full_log().is_empty());
    assert_eq!(c.exchange_count(), 0);
}

#[test]
fn push_user_message_sends_the_window() {
    let mut c = ShipComputer::new();
    let sent = c.push_user_message("hello");
    assert_eq!(sent.len(), 1);
    assert_eq!(sent[0].role, "user");
    assert_eq!(sent[0].content, "hello");
    assert_eq!(c.full_log().len(), 1);
}

#[test]
fn window_keeps_only_the_last_six_exchanges() {
    let mut c = ShipComputer::new();
    for i in 0..10 {
        c.push_user_message(&format!("q{}", i));
        c.record_reply(format!("a{}", i));
    }
    assert_eq!(c.exchange_count(), 10);
    let sent = c.push_user_message("q10");
    assert_eq!(sent.len(), 2 * MAX_CONTEXT_EXCHANGES);
    assert_eq!(sent[0].content, "a4");
    assert_eq!(sent[sent.len() - 1].content, "q10");
    assert_eq!(c.full_log().len(), 21);
}

#[test]
fn failed_request_leaves_the_log_as_it_was() {
    let mut c = ShipComputer::new();
    c.push_user_message("q0");
    c.record_reply("a0".to_string());
    let before = contents(c.full_log());
    c.push_user_message("lost");
    c.retract_last_message();
    assert_eq!(contents(c.full_log()), before);
    assert_eq!(c.exchange_count(), 1);
    // The next request sends the earlier exchange again.
    let sent = c.push_user_message("q1");
    assert_eq!(contents(&sent), vec!["q0", "a0", "q1"]);
}

#[test]
fn retract_on_empty_log_does_nothing() {
    let mut c = ShipComputer::new();
    c.retract_last_message();
    assert!(c.full_log().is_empty());
}

#[test]
fn exchange_counts_once_per_reply() {
    let mut c = ShipComputer::new();
    for i in 0..3 {
        assert_eq!(c.exchange_count(), i);
        c.push_user_message("q");
        c.record_reply("a".to_string());
    }
    assert_eq!(c.exchange_count(), 3);
}

#[test]
fn with_log_resumes_with_recent_context() {
    let log: Vec<Message> = (0..20)
        .map(|i| msg(if i % 2 == 0 { "user" } else { "assistant" }, &format!("m{}", i)))
        .collect();
    let mut c = ShipComputer::with_log(log);
    assert_eq!(c.full_log().len(), 20);
    assert_eq!(c.exchange_count(), 10);
    let sent = c.push_user_message("next");
    // the resumed window held m8..m19; the new message pushes m8 out.
    assert_eq!(sent.len(), 12);
    assert_eq!(sent[0].content, "m9");
    assert_eq!(sent[11].content, "next");
}

#[test]
fn with_short_log_keeps_it_all() {
    let log = vec![msg("user", "hi"), msg("assistant", "hello")];
    let mut c = ShipComputer::with_log(log);
    let sent = c.push_user_message("again");
    assert_eq!(contents(&sent), vec!["hi", "hello", "again"]);
}

#[test]
fn recent_log_returns_last_exchanges() {
    let mut c = ShipComputer::new();
    for i in 0..5 {
        c.push_user_message(&format!("q{}", i));
        c.record_reply(format!("a{}", i));
    }
    assert_eq!(contents(c.recent_log(2)), vec!["q3", "a3", "q4", "a4"]);
    assert_eq!(c.recent_log(10).len(), 10);
    assert!(c.recent_log(0).is_empty());
}

#[test]
fn clear_history_forgets_everything() {
    let mut c = ShipComputer::new();
    c.push_user_message("q");
    c.record_reply("a".to_string());
    c.clear_history();
    assert!(c.full_log().is_empty());
    let sent = c.push_user_message("fresh");
    assert_eq!(contents(&sent), vec!["fresh"]);
}

fn block(t: &str, text: Option<&str>) -> ContentBlock {
    ContentBlock { block_type: t.to_string(), text: text.map(|s| s.to_string()) }
}

#[test]
fn reply_text_takes_first_text_block() {
    let blocks = vec![block("tool_use", None), block("text", Some("hi")), block("text", Some("x"))];
    assert_eq!(reply_text(&blocks), Ok("hi".to_string()));
}

#[test]
fn reply_text_errors_without_text() {
    assert_eq!(reply_text(&vec![]), Err("No text content in response".to_string()));
    let blocks = vec![block("text", None), block("text", Some("later"))];
    assert_eq!(reply_text(&blocks), Err("No text content in response".to_string()));
}

#[test]
fn stream_lines_are_classified() {
    assert!(matches!(classify_stream_line("event: ping"), StreamLine::Ignore));
    assert!(matches!(classify_stream_line(""), StreamLine::Ignore));
    assert!(matches!(classify_stream_line("data:x"), StreamLine::Ignore));
    assert!(matches!(classify_stream_line("data: [DONE]"), StreamLine::Done));
    match classify_stream_line("data: {\"type\":\"ping\"}") {
        StreamLine::Data(d) => assert_eq!(d, "{\"type\":\"ping\"}"),
        other => panic!("unexpected {:?}", other),
    }
    match classify_stream_line("data: ") {
        StreamLine::Data(d) => assert_eq!(d, ""),
        other => panic!("unexpected {:?}", other),
    }
}

#[test]
fn unanswered_messages_complete_no_exchange() {
    let mut c = ShipComputer::new();
    c.push_user_message("first");
    c.push_user_message("second");
    assert_eq!(c.full_log().len(), 2);
    assert_eq!(c.exchange_count(), 0);
    c.record_reply("answer".to_string());
    assert_eq!(c.exchange_count(), 1);
}

#[test]
fn exchange_count_of_a_mixed_log() {
    let log = vec![
        msg("assistant", "stray"),
        msg("user", "a"),
        msg("user", "b"),
        msg("assistant", "c"),
        msg("assistant", "d"),
        msg("user", "e"),
        msg("assistant", "f"),
    ];
    let c = ShipComputer::with_log(log);
    assert_eq!(c.exchange_count(), 2);
}

#[test]
fn stream_chunk_reads_text_deltas() {
    let data = r#"{"type":"content_block_delta","index":0,"delta":{"type":"text_delta","text":"Hello, traveler"}}"#;
    assert_eq!(stream_chunk(data), Some("Hello, traveler".to_string()));
    let escaped = r#"{"type":"content_block_delta","delta":{"type":"text_delta","text":"a\"b\nc"}}"#;
    assert_eq!(stream_chunk(escaped), Some("a\"b\nc".to_string()));
}

#[test]
fn stream_chunk_skips_other_events() {
    assert_eq!(stream_chunk(r#"{"type":"message_start","message":{}}"#), None);
    assert_eq!(
        stream_chunk(r#"{"type":"content_block_delta","delta":{"type":"input_json_delta","partial_json":"{"}}"#),
        None
    );
    assert_eq!(stream_chunk(r#"{"type":"content_block_delta","delta":{"type":"text_delta"}}"#), None);
    assert_eq!(stream_chunk(r#"{"type":"content_block_delta","delta":{"type":"text_delta","text":7}}"#), None);
    assert_eq!(stream_chunk("not json"), None);
    assert_eq!(stream_chunk(""), None);
}

#[test]
fn stream_delta_needs_both_types() {
    let s = |x: &str| Some(x.to_string());
    assert_eq!(stream_delta(Some((s("content_block_delta"), s("text_delta"), s("hi")))), s("hi"));
    assert_eq!(stream_delta(Some((s("content_block_start"), s("text_delta"), s("hi")))), None);
    assert_eq!(stream_delta(Some((s("content_block_delta"), s("other"), s("hi")))), None);
    assert_eq!(stream_delta(Some((None, s("text_delta"), s("hi")))), None);
    assert_eq!(stream_delta(None), None);
}

#[test]
fn error_message_prefers_the_api_message() {
    let body = r#"{"type":"error","error":{"type":"overloaded_error","message":"Overloaded"}}"#;
    assert_eq!(error_message(body, "529 <unknown status code>"), "Overloaded");
}

#[test]
fn error_message_falls_back_to_the_status() {
    assert_eq!(error_message("<html>bad gateway</html>", "502 Bad Gateway"), "HTTP 502 Bad Gateway");
    assert_eq!(error_message(r#"{"error":{"message":5}}"#, "400 Bad Request"), "HTTP 400 Bad Request");
    assert_eq!(error_message("{}", "401 Unauthorized"), "HTTP 401 Unauthorized");
    assert_eq!(error_text(None, "404 Not Found"), "HTTP 404 Not Found");
    assert_eq!(error_text(Some("nope".to_string()), "404 Not Found"), "nope");
}

#[test]
fn failed_request_on_a_full_window_drops_its_oldest_message() {
    let mut c = ShipComputer::new();
    for i in 0..MAX_CONTEXT_EXCHANGES {
        c.push_user_message(&format!("q{}", i));
        c.record_reply(format!("a{}", i));
    }
    c.push_user_message("lost");
    c.retract_last_message();
    assert_eq!(c.full_log().len(), 2 * MAX_CONTEXT_EXCHANGES);
    let sent = c.push_user_message("next");
    assert_eq!(sent.len(), 2 * MAX_CONTEXT_EXCHANGES);
    assert_eq!(sent[0].content, "a0");
    assert_eq!(sent[sent.len() - 1].content, "next");
}
