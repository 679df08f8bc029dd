use rjango::http::{HttpMethod, Request};
use rjango::json::JsonValue;
use rjango::messages::{add_message, debug, error, get_messages, info, success, warning, MessageLevel};
use rjango::middleware::remote_user::remote_user_record;
use rjango::middleware::session::{session_to_save, session_with_key};
use rjango::sessions::{
    generate_key, hex_string, session_from_text, session_key_for, session_to_text, InMemorySessionBackend,
    SessionBackend,
};

#[test]
fn test_add_and_get_messages() {
    let mut session: Vec<(String, JsonValue)> = Vec::new();
    add_message(&mut session, MessageLevel::Info, "Hello");
    add_message(&mut session, MessageLevel::Warning, "Watch out");
    add_message(&mut session, MessageLevel::Error, "Something broke");
    let msgs = get_messages(&mut session);
    assert_eq!(msgs.len(), 3);
    assert_eq!(msgs[0].message, "Hello");
    assert_eq!(msgs[0].level, MessageLevel::Info);
    assert_eq!(msgs[1].message, "Watch out");
    assert_eq!(msgs[1].level, MessageLevel::Warning);
    assert_eq!(msgs[2].message, "Something broke");
    assert_eq!(msgs[2].level, MessageLevel::Error);
    assert_eq!(get_messages(&mut session).len(), 0);
}

#[test]
fn test_convenience_functions() {
    let mut session: Vec<(String, JsonValue)> = Vec::new();
    info(&mut session, "Info msg");
    success(&mut session, "Success msg");
    warning(&mut session, "Warning msg");
    error(&mut session, "Error msg");
    debug(&mut session, "Debug msg");
    let msgs = get_messages(&mut session);
    assert_eq!(msgs.len(), 5);
    assert_eq!(msgs[0].level, MessageLevel::Info);
    assert_eq!(msgs[1].level, MessageLevel::Success);
    assert_eq!(msgs[2].level, MessageLevel::Warning);
    assert_eq!(msgs[3].level, MessageLevel::Error);
    assert_eq!(msgs[4].level, MessageLevel::Debug);
}

#[test]
fn test_no_messages() {
    let mut session: Vec<(String, JsonValue)> = Vec::new();
    assert!(get_messages(&mut session).is_empty());
}

#[test]
fn messages_stored_as_json_records() {
    let mut session: Vec<(String, JsonValue)> = Vec::new();
    add_message(&mut session, MessageLevel::Success, "a\"b");
    assert_eq!(session.len(), 1);
    assert_eq!(session_to_text(&session), r#"{"_messages":[{"level":25,"message":"a\"b"}]}"#);
    let mut other = vec![("_messages".to_string(), JsonValue::Bool(true))];
    add_message(&mut other, MessageLevel::Info, "x");
    assert!(matches!(other[0].1, JsonValue::Bool(true)));
    assert!(get_messages(&mut other).is_empty());
    assert!(other.is_empty());
}

#[test]
fn test_generate_key() {
    let key1 = generate_key();
    assert!(key1.starts_with("rjs-"));
}

#[test]
fn sessions_key_is_hex_of_clock() {
    assert_eq!(session_key_for(255), "rjs-ff");
    assert_eq!(session_key_for(0), "rjs-0");
    assert_eq!(hex_string(4096), "1000");
}

#[test]
fn sessions_in_memory_backend() {
    let mut b = InMemorySessionBackend::new();
    assert_eq!(b.session_id(), "in-memory");
    b.set("a", JsonValue::Number("1".to_string()));
    b.set("b", JsonValue::String("x".to_string()));
    b.set("a", JsonValue::Bool(false));
    assert!(matches!(b.get("a"), Some(JsonValue::Bool(false))));
    assert_eq!(b.keys(), vec!["a".to_string(), "b".to_string()]);
    b.delete("a");
    assert!(b.get("a").is_none());
    assert_eq!(b.keys(), vec!["b".to_string()]);
    b.clear();
    assert!(b.keys().is_empty());
}

#[test]
fn sessions_text_round_trip() {
    let data = session_from_text(r#"{"user": "bob", "n": 3}"#).unwrap();
    assert_eq!(data.len(), 2);
    assert_eq!(session_to_text(&data), r#"{"n":3,"user":"bob"}"#);
    assert!(session_from_text("not json").is_none());
}

#[test]
fn remote_user_record_fields() {
    let r = remote_user_record("alice");
    assert_eq!(r.get("username").and_then(|v| v.as_str()), Some("alice"));
    assert!(matches!(r.get("is_authenticated"), Some(JsonValue::Bool(true))));
    assert!(matches!(r.get("is_active"), Some(JsonValue::Bool(true))));
    let mut req = Request::new(HttpMethod::GET, "/");
    req.set_user(vec![("username".to_string(), JsonValue::String("x".to_string()))]);
    assert!(req.user.is_some());
}

#[test]
fn sessions_middleware_key_and_save() {
    let data = vec![("cart".to_string(), JsonValue::Number("2".to_string()))];
    let s = session_with_key("k1", data);
    assert_eq!(s.len(), 2);
    assert!(matches!(&s[0], (k, JsonValue::String(v)) if k == "_session_key" && v == "k1"));
    let (key, saved) = session_to_save(&s).unwrap();
    assert_eq!(key, "k1");
    assert_eq!(saved.len(), 1);
    assert_eq!(saved[0].0, "cart");
    assert!(session_to_save(&vec![]).is_none());
}

#[test]
fn session_files_expire_after_two_weeks() {
    assert!(!rjango::sessions::session_file_expired(Some("session"), 1209600));
    assert!(rjango::sessions::session_file_expired(Some("session"), 1209601));
    assert!(!rjango::sessions::session_file_expired(Some("txt"), 9999999));
    assert!(!rjango::sessions::session_file_expired(None, 9999999));
}
