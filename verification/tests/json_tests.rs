use session_core::json::Json;

fn sample() -> Json {
    Json::Object(vec![
        ("a".to_string(), Json::Text("one".to_string())),
        ("b".to_string(), Json::Array(vec![Json::Null, Json::Bool(false)])),
        ("a".to_string(), Json::Text("shadowed".to_string())),
        ("n".to_string(), Json::Number("1.5".to_string())),
    ])
}

#[test]
fn get_finds_the_first_member_under_a_key() {
    let json = sample();
    assert_eq!(json.get("a").and_then(|j| j.as_str()), Some("one"));
    assert!(matches!(json.get("n"), Some(Json::Number(n)) if n == "1.5"));
    assert!(json.get("missing").is_none());
    assert!(json.get("").is_none());
}

#[test]
fn get_on_what_is_no_object_finds_nothing() {
    assert!(Json::Null.get("a").is_none());
    assert!(Json::Text("a".to_string()).get("a").is_none());
    assert!(Json::Array(vec![sample()]).get("a").is_none());
}

#[test]
fn as_str_is_for_text_only() {
    assert_eq!(Json::Text("x".to_string()).as_str(), Some("x"));
    assert_eq!(Json::Number("1".to_string()).as_str(), None);
    assert_eq!(Json::Null.as_str(), None);
    assert_eq!(sample().as_str(), None);
}

#[test]
fn as_array_is_for_arrays_only() {
    let json = sample();
    assert_eq!(json.get("b").and_then(|j| j.as_array()).map(|a| a.len()), Some(2));
    assert!(json.as_array().is_none());
    assert!(Json::Bool(true).as_array().is_none());
}

#[test]
fn get_str_reads_text_members() {
    let json = sample();
    assert_eq!(json.get_str("a"), Some("one"));
    assert_eq!(json.get_str("b"), None);
    assert_eq!(json.get_str("zzz"), None);
}

#[test]
fn into_member_hands_the_member_out() {
    assert!(matches!(sample().into_member("a"), Some(Json::Text(t)) if t == "one"));
    assert!(matches!(sample().into_member("b"), Some(Json::Array(items)) if items.len() == 2));
    assert!(sample().into_member("c").is_none());
    assert!(Json::Null.into_member("a").is_none());
}
