use session_core::json::Json;
use session_core::session::MessageContent;
use session_core::transcript::{
    decimal, message_id, parse_session_jsonl, session_from_lines, Transcript,
};

fn texts(lines: &[&str]) -> Vec<String> {
    lines.iter().map(|l| l.to_string()).collect()
}

fn member_of<'a>(json: &'a Json, key: &str) -> &'a Json {
    json.get(key).expect("the member is there")
}

#[test]
fn decimal_of_small_and_large_numbers() {
    assert_eq!(decimal(0), "0");
    assert_eq!(decimal(7), "7");
    assert_eq!(decimal(10), "10");
    assert_eq!(decimal(409), "409");
    assert_eq!(decimal(1234567890), "1234567890");
    assert_eq!(decimal(usize::MAX), usize::MAX.to_string());
}

#[test]
fn message_ids_count_from_zero() {
    assert_eq!(message_id(0), "msg_0");
    assert_eq!(message_id(12), "msg_12");
}

#[test]
fn empty_transcript_gives_an_empty_session() {
    let session = session_from_lines("s", "p", &Vec::new(), "now".to_string());
    assert_eq!(session.id, "s");
    assert_eq!(session.project_id, "p");
    assert_eq!(session.name, "s");
    assert!(session.messages.is_empty());
    assert_eq!(session.created_at, "now");
    assert_eq!(session.updated_at, "now");
    assert!(!session.is_waiting);
}

#[test]
fn messages_are_kept_in_order() {
    let lines = texts(&[
        r#"{"type":"message","role":"user","content":"hi","timestamp":"2024-01-01T00:00:00Z"}"#,
        r#"{"type":"message","role":"assistant","content":{"text":"hello","n":3}}"#,
    ]);
    let session = session_from_lines("s-1", "proj", &lines, "t".to_string());
    assert_eq!(session.messages.len(), 2);
    let first = &session.messages[0];
    assert_eq!(first.id, "msg_0");
    assert_eq!(first.role, "user");
    assert_eq!(first.timestamp, "2024-01-01T00:00:00Z");
    match &first.content {
        MessageContent::Object(json) => assert_eq!(json.as_str(), Some("hi")),
        MessageContent::Text(_) => panic!("content is kept as a document"),
    }
    let second = &session.messages[1];
    assert_eq!(second.id, "msg_1");
    assert_eq!(second.role, "assistant");
    assert_eq!(second.timestamp, "");
    match &second.content {
        MessageContent::Object(json) => {
            assert_eq!(member_of(json, "text").as_str(), Some("hello"));
            assert!(matches!(member_of(json, "n"), Json::Number(n) if n == "3"));
        }
        MessageContent::Text(_) => panic!("content is kept as a document"),
    }
    assert!(!session.is_waiting);
}

#[test]
fn blank_and_malformed_lines_are_passed_over() {
    let lines = texts(&[
        "",
        "   ",
        "\t",
        "not json",
        r#"{"type":"message","role":"user","content":1"#,
        r#"{"type":"message","role":"user","content":1}"#,
        "[1, 2",
    ]);
    let session = session_from_lines("s", "p", &lines, "t".to_string());
    assert_eq!(session.messages.len(), 1);
    assert_eq!(session.messages[0].id, "msg_0");
    assert!(!session.is_waiting);
}

#[test]
fn message_needs_role_and_content() {
    let lines = texts(&[
        r#"{"type":"message","role":"user"}"#,
        r#"{"type":"message","content":"x"}"#,
        r#"{"type":"message"}"#,
        r#"{"role":"user","content":"x"}"#,
        r#"{"type":7,"role":"user","content":"x"}"#,
        r#"["message"]"#,
        r#""message""#,
    ]);
    let session = session_from_lines("s", "p", &lines, "t".to_string());
    assert!(session.messages.is_empty());
}

#[test]
fn role_that_is_no_text_is_unknown() {
    let lines = texts(&[r#"{"type":"message","role":5,"content":null,"timestamp":12}"#]);
    let session = session_from_lines("s", "p", &lines, "t".to_string());
    assert_eq!(session.messages.len(), 1);
    assert_eq!(session.messages[0].role, "unknown");
    assert_eq!(session.messages[0].timestamp, "");
    assert!(matches!(&session.messages[0].content, MessageContent::Object(Json::Null)));
}

#[test]
fn waiting_entries_are_noted() {
    for kind in ["user_input_required", "waiting"] {
        let lines = texts(&[
            r#"{"type":"message","role":"user","content":"x"}"#,
            &format!(r#"{{"type":"{}"}}"#, kind),
            r#"{"type":"message","role":"user","content":"y"}"#,
        ]);
        let session = session_from_lines("s", "p", &lines, "t".to_string());
        assert!(session.is_waiting, "{}", kind);
        assert_eq!(session.messages.len(), 2);
        assert_eq!(session.messages[1].id, "msg_1");
    }
}

#[test]
fn other_entries_change_nothing() {
    let lines = texts(&[r#"{"type":"summary"}"#, r#"{"type":"Waiting"}"#, "{}", "null", "3"]);
    let session = session_from_lines("s", "p", &lines, "t".to_string());
    assert!(session.messages.is_empty());
    assert!(!session.is_waiting);
}

#[test]
fn transcript_can_be_fed_line_by_line() {
    let mut transcript = Transcript::new();
    transcript.take_line(r#"{"type":"waiting"}"#);
    transcript.take_line("oops");
    transcript.take_line(r#"{"type":"message","role":"tool","content":[1,2]}"#);
    assert!(transcript.is_waiting);
    assert_eq!(transcript.messages.len(), 1);
    let session = transcript.into_session("id", "proj", "2024".to_string());
    assert_eq!(session.id, "id");
    assert_eq!(session.name, "id");
    assert_eq!(session.project_id, "proj");
    assert_eq!(session.created_at, "2024");
    assert_eq!(session.updated_at, "2024");
    assert!(session.is_waiting);
    match &session.messages[0].content {
        MessageContent::Object(json) => assert_eq!(json.as_array().map(|a| a.len()), Some(2)),
        MessageContent::Text(_) => panic!("content is kept as a document"),
    }
}

#[test]
fn transcript_takes_documents() {
    let mut transcript = Transcript::new();
    transcript.take_entry(Json::Object(vec![
        ("type".to_string(), Json::Text("message".to_string())),
        ("role".to_string(), Json::Text("user".to_string())),
        ("content".to_string(), Json::Bool(true)),
        ("timestamp".to_string(), Json::Text("t0".to_string())),
    ]));
    transcript.take_entry(Json::Object(vec![(
        "type".to_string(),
        Json::Text("user_input_required".to_string()),
    )]));
    transcript.take_entry(Json::Array(Vec::new()));
    assert_eq!(transcript.messages.len(), 1);
    assert_eq!(transcript.messages[0].id, "msg_0");
    assert_eq!(transcript.messages[0].role, "user");
    assert_eq!(transcript.messages[0].timestamp, "t0");
    assert!(matches!(&transcript.messages[0].content, MessageContent::Object(Json::Bool(true))));
    assert!(transcript.is_waiting);
}

#[test]
fn parse_session_jsonl_stamps_the_session() {
    let lines = texts(&[r#"{"type":"message","role":"user","content":"x"}"#]);
    let session = parse_session_jsonl("test_session", "test_project", &lines);
    assert_eq!(session.id, "test_session");
    assert_eq!(session.project_id, "test_project");
    assert_eq!(session.name, "test_session");
    assert_eq!(session.messages.len(), 1);
    assert!(!session.created_at.is_empty());
    assert_eq!(session.created_at, session.updated_at);
}
