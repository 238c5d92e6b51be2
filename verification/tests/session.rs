use framework::attributes::Attributes;
use framework::session::{is_valid_id, Error, Session};
use framework::value::Value;

fn text(s: &str) -> Value {
    Value::Text(s.to_string())
}

fn started() -> Session {
    let mut session = Session::new();
    session.start(None, Attributes::new()).unwrap();
    session
}

fn started_with(entries: Vec<(&str, Value)>) -> Session {
    let mut attributes = Attributes::new();
    for (key, value) in entries {
        attributes.insert(key, value);
    }
    let mut session = Session::new();
    session.start(None, attributes).unwrap();
    session
}

const GOOD_ID: &str = "abcdefghijABCDEFGHIJ0123456789abcdefghij";

#[test]
fn new_session_is_not_started_and_has_a_valid_id() {
    let session = Session::new();
    assert!(!session.has_started());
    assert!(is_valid_id(&session.id()));
}

#[test]
fn fresh_session_has_valid_id_and_token() {
    let session = started();
    assert!(session.has_started());
    let id = session.id();
    assert_eq!(id.len(), 40);
    assert!(id.chars().all(|c| c.is_ascii_alphanumeric()));
    let token = session.token().unwrap();
    assert_eq!(token.len(), 40);
    assert!(token.chars().all(|c| c.is_ascii_alphanumeric()));
}

#[test]
fn start_twice_fails_with_already_started() {
    let mut session = started();
    let before = session.id();
    assert_eq!(session.start(None, Attributes::new()), Err(Error::AlreadyStarted));
    assert_eq!(session.id(), before);
    assert!(session.has_started());
}

#[test]
fn already_started_has_its_message() {
    assert_eq!(Error::AlreadyStarted.message(), "This session has already been initialized");
}

#[test]
fn start_keeps_a_token_that_is_held() {
    let session = started_with(vec![("_token", text("kept"))]);
    assert_eq!(session.token(), Some("kept".to_string()));
}

#[test]
fn start_replaces_a_null_token() {
    let session = started_with(vec![("_token", Value::Null)]);
    let token = session.token().unwrap();
    assert!(is_valid_id(&token));
}

#[test]
fn start_lays_given_attributes_over_held_ones() {
    let mut session = Session::new();
    session.set("kept", Value::Int(1));
    session.set("both", Value::Int(2));
    let mut given = Attributes::new();
    given.insert("both", Value::Int(3));
    given.insert("given", Value::Int(4));
    session.start(None, given).unwrap();
    assert_eq!(session.get("kept"), Some(Value::Int(1)));
    assert_eq!(session.get("both"), Some(Value::Int(3)));
    assert_eq!(session.get("given"), Some(Value::Int(4)));
}

#[test]
fn start_takes_a_valid_id() {
    let mut session = Session::new();
    session.start(Some(GOOD_ID.to_string()), Attributes::new()).unwrap();
    assert_eq!(session.id(), GOOD_ID);
}

#[test]
fn set_id_keeps_a_valid_id() {
    let mut session = Session::new();
    session.set_id(Some(GOOD_ID.to_string()));
    assert_eq!(session.id(), GOOD_ID);
}

#[test]
fn set_id_replaces_an_id_that_is_too_short() {
    let mut session = Session::new();
    session.set_id(Some("short".to_string()));
    assert_ne!(session.id(), "short");
    assert!(is_valid_id(&session.id()));
}

#[test]
fn set_id_replaces_an_id_that_is_too_long() {
    let given = format!("{}x", GOOD_ID);
    let mut session = Session::new();
    session.set_id(Some(given.clone()));
    assert_ne!(session.id(), given);
    assert!(is_valid_id(&session.id()));
}

#[test]
fn set_id_replaces_an_id_with_other_characters() {
    let given = "abcdefghijABCDEFGHIJ0123456789abcdefghi-".to_string();
    assert_eq!(given.len(), 40);
    let mut session = Session::new();
    session.set_id(Some(given.clone()));
    assert_ne!(session.id(), given);
    assert!(is_valid_id(&session.id()));
}

#[test]
fn set_id_replaces_an_id_of_forty_bytes_that_are_not_ascii() {
    let given = "é".repeat(20);
    assert_eq!(given.len(), 40);
    let mut session = Session::new();
    session.set_id(Some(given.clone()));
    assert_ne!(session.id(), given);
    assert!(is_valid_id(&session.id()));
}

#[test]
fn set_id_without_an_id_generates_one() {
    let mut session = Session::new();
    let before = session.id();
    session.set_id(None);
    assert!(is_valid_id(&session.id()));
    assert_ne!(session.id(), before);
}

#[test]
fn is_valid_id_wants_forty_letters_and_digits() {
    assert!(is_valid_id(GOOD_ID));
    assert!(!is_valid_id(""));
    assert!(!is_valid_id(&GOOD_ID[..39]));
    assert!(!is_valid_id("abcdefghijABCDEFGHIJ0123456789abcdefghi_"));
}

#[test]
fn set_then_get_returns_the_value() {
    let mut session = started();
    session.set("name", text("Ada"));
    assert_eq!(session.get("name"), Some(text("Ada")));
    assert_eq!(session.get("other"), None);
}

#[test]
fn set_replaces_what_was_there() {
    let mut session = started();
    session.set("n", Value::Int(1));
    session.set("n", Value::Int(2));
    assert_eq!(session.get("n"), Some(Value::Int(2)));
}

#[test]
fn get_returns_nested_values_as_they_were_set() {
    let nested = Value::Object(vec![
        ("email".to_string(), Value::Array(vec![text("Invalid email or password")])),
        ("count".to_string(), Value::Number("1.5".to_string())),
        ("ok".to_string(), Value::Bool(false)),
    ]);
    let mut session = started();
    session.set("errors", nested.clone());
    assert_eq!(session.get("errors"), Some(nested));
}

#[test]
fn has_wants_a_value_that_is_not_null() {
    let mut session = started();
    session.set("null", Value::Null);
    session.set("one", Value::Int(1));
    assert!(session.has("one"));
    assert!(!session.has("null"));
    assert!(!session.has("absent"));
    assert!(session.has(vec!["one".to_string(), "_token".to_string()]));
    assert!(!session.has(vec!["one".to_string(), "null".to_string()]));
}

#[test]
fn exists_and_missing_look_at_presence_only() {
    let mut session = started();
    session.set("null", Value::Null);
    assert!(session.exists_key("null"));
    assert!(!session.missing("null"));
    assert!(!session.exists_key("absent"));
    assert!(session.missing("absent"));
    assert!(session.missing(vec!["null".to_string(), "absent".to_string()]));
    assert!(session.exists_key(Vec::<String>::new()));
}

#[test]
fn all_returns_every_attribute() {
    let session = started_with(vec![("a", Value::Int(1)), ("_token", text("t"))]);
    let all = session.all();
    assert_eq!(all.len(), 2);
    assert_eq!(all.get("a"), Some(&Value::Int(1)));
    assert_eq!(all.get("_token"), Some(&text("t")));
}

#[test]
fn only_returns_the_given_keys_that_are_held() {
    let session = started_with(vec![("a", Value::Int(1)), ("b", Value::Int(2)), ("_token", text("t"))]);
    let some = session.only(vec!["a".to_string(), "absent".to_string()]);
    assert_eq!(some.len(), 1);
    assert_eq!(some.get("a"), Some(&Value::Int(1)));
}

#[test]
fn pull_returns_the_value_and_forgets_it() {
    let mut session = started_with(vec![("a", Value::Int(1))]);
    assert_eq!(session.pull("a"), Some(Value::Int(1)));
    assert_eq!(session.get("a"), None);
    assert_eq!(session.pull("a"), None);
}

#[test]
fn remove_returns_the_value_and_forgets_it() {
    let mut session = started_with(vec![("a", Value::Int(1))]);
    assert_eq!(session.remove("a"), Some(Value::Int(1)));
    assert!(session.missing("a"));
}

#[test]
fn forget_takes_several_keys_out() {
    let mut session = started_with(vec![("a", Value::Int(1)), ("b", Value::Int(2)), ("c", Value::Int(3))]);
    session.forget(vec!["a".to_string(), "c".to_string(), "absent".to_string()]);
    assert!(session.missing("a"));
    assert!(session.exists_key("b"));
    assert!(session.missing("c"));
}

#[test]
fn flush_takes_everything_out() {
    let mut session = started_with(vec![("a", Value::Int(1))]);
    session.flush();
    assert_eq!(session.all().len(), 0);
    assert!(session.has_started());
}

#[test]
fn replace_puts_other_attributes_in_place() {
    let mut session = started_with(vec![("a", Value::Int(1))]);
    let mut other = Attributes::new();
    other.insert("b", Value::Int(2));
    session.replace(other);
    assert!(session.missing("a"));
    assert_eq!(session.get("b"), Some(Value::Int(2)));
    assert_eq!(session.all().len(), 1);
}

#[test]
fn remember_returns_what_is_held() {
    let mut session = started_with(vec![("a", Value::Int(1))]);
    assert_eq!(session.remember("a", || Value::Int(9)), Value::Int(1));
    assert_eq!(session.get("a"), Some(Value::Int(1)));
}

#[test]
fn remember_computes_and_stores_what_is_absent_or_null() {
    let mut session = started_with(vec![("null", Value::Null)]);
    assert_eq!(session.remember("absent", || Value::Int(9)), Value::Int(9));
    assert_eq!(session.get("absent"), Some(Value::Int(9)));
    assert_eq!(session.remember("null", || Value::Int(8)), Value::Int(8));
    assert_eq!(session.get("null"), Some(Value::Int(8)));
}

#[test]
fn push_appends_to_an_array() {
    let mut session = started_with(vec![("list", Value::Array(vec![Value::Int(1)]))]);
    assert!(session.can_push("list"));
    session.push("list", text("two"));
    assert_eq!(session.get("list"), Some(Value::Array(vec![Value::Int(1), text("two")])));
}

#[test]
fn push_on_an_absent_key_leaves_it_absent() {
    let mut session = started();
    assert!(session.can_push("list"));
    session.push("list", Value::Int(1));
    assert!(session.missing("list"));
}

#[test]
fn push_is_refused_on_a_value_that_is_no_array() {
    let session = started_with(vec![("n", Value::Int(1)), ("s", text("x")), ("null", Value::Null)]);
    assert!(!session.can_push("n"));
    assert!(!session.can_push("s"));
    assert!(!session.can_push("null"));
}

#[test]
fn increment_adds_to_an_integer() {
    let mut session = started_with(vec![("n", Value::Int(40))]);
    assert!(session.can_increment("n", 2));
    assert_eq!(session.increment("n", 2), 42);
    assert_eq!(session.get("n"), Some(Value::Int(42)));
}

#[test]
fn increment_counts_an_absent_key_from_zero() {
    let mut session = started();
    assert!(session.can_increment("n", 5));
    assert_eq!(session.increment("n", 5), 5);
    assert_eq!(session.get("n"), Some(Value::Int(5)));
}

#[test]
fn increment_is_refused_on_a_value_that_is_no_integer() {
    let session = started_with(vec![
        ("s", text("1")),
        ("list", Value::Array(vec![])),
        ("real", Value::Number("1.5".to_string())),
        ("null", Value::Null),
    ]);
    assert!(!session.can_increment("s", 1));
    assert!(!session.can_increment("list", 1));
    assert!(!session.can_increment("real", 1));
    assert!(!session.can_increment("null", 1));
}

#[test]
fn increment_is_refused_where_the_sum_overflows() {
    let session = started_with(vec![("n", Value::Int(i64::MAX))]);
    assert!(!session.can_increment("n", 1));
    assert!(session.can_increment("n", 0));
    assert!(session.can_increment("n", -1));
}

#[test]
fn decrement_subtracts_from_an_integer() {
    let mut session = started_with(vec![("n", Value::Int(40))]);
    assert!(session.can_decrement("n", 2));
    assert_eq!(session.decrement("n", 2), 38);
    assert_eq!(session.decrement("fresh", 3), -3);
    assert_eq!(session.get("fresh"), Some(Value::Int(-3)));
}

#[test]
fn decrement_is_refused_for_the_least_integer() {
    let session = started();
    assert!(!session.can_decrement("n", i64::MIN));
}

#[test]
fn regenerate_token_gives_another_token() {
    let mut session = started();
    let before = session.token().unwrap();
    session.regenerate_token();
    let after = session.token().unwrap();
    assert!(is_valid_id(&after));
    assert_ne!(before, after);
}

#[test]
fn token_is_refused_where_it_is_no_string() {
    let mut session = started();
    assert!(session.can_read_token());
    session.set("_token", Value::Int(1));
    assert!(!session.can_read_token());
}

#[test]
fn previous_url_is_what_was_set() {
    let mut session = started();
    assert_eq!(session.previous_url(), None);
    session.set_previous_url("/contacts?page=2".to_string());
    assert!(session.can_read_previous_url());
    assert_eq!(session.previous_url(), Some("/contacts?page=2".to_string()));
}

#[test]
fn migrate_gives_a_fresh_id_and_keeps_the_attributes() {
    let mut session = started_with(vec![("a", Value::Int(1))]);
    let before = session.id();
    assert_eq!(session.migrate(false), None);
    assert_ne!(session.id(), before);
    assert!(is_valid_id(&session.id()));
    assert_eq!(session.get("a"), Some(Value::Int(1)));
}

#[test]
fn migrate_hands_out_the_id_to_destroy() {
    let mut session = started();
    let before = session.id();
    assert_eq!(session.migrate(true), Some(before));
}

#[test]
fn regenerate_renews_id_and_token() {
    let mut session = started_with(vec![("a", Value::Int(1))]);
    let id = session.id();
    let token = session.token().unwrap();
    assert_eq!(session.regenerate(true), Some(id.clone()));
    assert_ne!(session.id(), id);
    assert_ne!(session.token().unwrap(), token);
    assert_eq!(session.get("a"), Some(Value::Int(1)));
}

#[test]
fn invalidate_empties_the_session_and_renews_the_id() {
    let mut session = started_with(vec![("a", Value::Int(1))]);
    let id = session.id();
    assert_eq!(session.invalidate(), id);
    assert_ne!(session.id(), id);
    assert_eq!(session.all().len(), 0);
}

#[test]
fn keys_are_taken_one_or_several() {
    let mut session = started_with(vec![("a", Value::Int(1)), ("b", Value::Int(2))]);
    assert!(session.has("a".to_string()));
    assert!(session.has(vec!["a", "b"]));
    assert!(!session.has(vec!["a", "c"]));
    session.forget(vec!["a", "b"]);
    assert!(session.missing("a"));
    assert!(session.missing("b"));
}
