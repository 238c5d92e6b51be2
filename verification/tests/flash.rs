use framework::attributes::Attributes;
use framework::session::Session;
use framework::value::Value;

fn text(s: &str) -> Value {
    Value::Text(s.to_string())
}

fn keys(list: &[&str]) -> Value {
    Value::Array(list.iter().map(|k| text(k)).collect())
}

fn start(attributes: Attributes) -> Session {
    let mut session = Session::new();
    session.start(None, attributes).unwrap();
    session
}

fn next_request(session: &mut Session) -> Session {
    assert!(session.can_end());
    let attributes = session.end().unwrap();
    start(attributes)
}

#[test]
fn flash_lasts_for_two_requests() {
    let mut first = start(Attributes::new());
    assert!(first.can_flash("status", &text("saved")));
    first.flash("status", text("saved"));
    assert_eq!(first.get("status"), Some(text("saved")));

    let mut second = next_request(&mut first);
    assert_eq!(second.get("status"), Some(text("saved")));

    let mut third = next_request(&mut second);
    assert_eq!(third.get("status"), None);

    let fourth = next_request(&mut third);
    assert_eq!(fourth.get("status"), None);
}

#[test]
fn flash_lists_the_key_even_in_a_fresh_session() {
    let mut session = start(Attributes::new());
    session.flash("status", text("saved"));
    assert_eq!(session.get("_flash.new"), Some(keys(&["status"])));
    assert_eq!(session.get("_flash.old"), Some(keys(&[])));
}

#[test]
fn flash_strikes_the_key_from_the_previous_cycle() {
    let mut attributes = Attributes::new();
    attributes.insert("_flash.old", keys(&["a", "status", "b"]));
    attributes.insert("_flash.new", keys(&["c"]));
    let mut session = start(attributes);
    session.flash("status", text("again"));
    assert_eq!(session.get("_flash.old"), Some(keys(&["a", "b"])));
    assert_eq!(session.get("_flash.new"), Some(keys(&["c", "status"])));
}

#[test]
fn now_lasts_for_one_request() {
    let mut first = start(Attributes::new());
    assert!(first.can_flash_now("notice", &text("hello")));
    first.now("notice", text("hello"));
    assert_eq!(first.get("notice"), Some(text("hello")));
    assert_eq!(first.get("_flash.old"), Some(keys(&["notice"])));

    let mut second = next_request(&mut first);
    assert_eq!(second.get("notice"), None);

    let third = next_request(&mut second);
    assert_eq!(third.get("notice"), None);
}

#[test]
fn end_ages_the_flash_data() {
    let mut attributes = Attributes::new();
    attributes.insert("_flash.old", keys(&["gone"]));
    attributes.insert("_flash.new", keys(&["aging"]));
    attributes.insert("gone", Value::Int(1));
    attributes.insert("aging", Value::Int(2));
    attributes.insert("plain", Value::Int(3));
    attributes.insert("_token", text("t"));
    let mut session = start(attributes);
    let id = session.id();
    let handed = session.end().unwrap();
    assert_eq!(handed.get("gone"), None);
    assert_eq!(handed.get("aging"), Some(&Value::Int(2)));
    assert_eq!(handed.get("plain"), Some(&Value::Int(3)));
    assert_eq!(handed.get("_flash.old"), Some(&keys(&["aging"])));
    assert_eq!(handed.get("_flash.new"), Some(&keys(&[])));
    assert_eq!(handed.len(), 5);
    assert!(!session.has_started());
    assert_eq!(session.id(), id);
}

#[test]
fn end_leaves_the_session_ready_to_start_again() {
    let mut session = start(Attributes::new());
    session.set("a", Value::Int(1));
    let handed = session.end().unwrap();
    assert!(session.start(None, handed).is_ok());
    assert_eq!(session.get("a"), Some(Value::Int(1)));
}

#[test]
fn end_is_refused_where_a_flash_list_is_no_list_of_strings() {
    let mut session = start(Attributes::new());
    session.set("_flash.old", Value::Int(1));
    assert!(!session.can_end());
    session.set("_flash.old", Value::Array(vec![Value::Int(1)]));
    assert!(!session.can_end());
    session.set("_flash.old", keys(&[]));
    assert!(session.can_end());
    session.set("_flash.new", Value::Null);
    assert!(!session.can_end());
}

#[test]
fn reflash_extends_the_previous_cycle() {
    let mut first = start(Attributes::new());
    first.flash("status", text("saved"));
    let mut second = next_request(&mut first);
    assert!(second.can_keep());
    second.reflash();
    assert_eq!(second.get("_flash.new"), Some(keys(&["status"])));
    assert_eq!(second.get("_flash.old"), Some(keys(&[])));
    let mut third = next_request(&mut second);
    assert_eq!(third.get("status"), Some(text("saved")));
    let fourth = next_request(&mut third);
    assert_eq!(fourth.get("status"), None);
}

#[test]
fn reflash_lists_each_key_once() {
    let mut attributes = Attributes::new();
    attributes.insert("_flash.new", keys(&["b", "a"]));
    attributes.insert("_flash.old", keys(&["a", "c", "c"]));
    let mut session = start(attributes);
    session.reflash();
    assert_eq!(session.get("_flash.new"), Some(keys(&["b", "a", "c"])));
    assert_eq!(session.get("_flash.old"), Some(keys(&[])));
}

#[test]
fn keep_extends_the_given_keys_only() {
    let mut first = start(Attributes::new());
    first.flash("kept", Value::Int(1));
    first.flash("dropped", Value::Int(2));
    let mut second = next_request(&mut first);
    second.keep("kept");
    assert_eq!(second.get("_flash.new"), Some(keys(&["kept"])));
    assert_eq!(second.get("_flash.old"), Some(keys(&["dropped"])));
    let third = next_request(&mut second);
    assert_eq!(third.get("kept"), Some(Value::Int(1)));
    assert_eq!(third.get("dropped"), None);
}

#[test]
fn flashed_returns_what_was_flashed_in_this_cycle() {
    let mut session = start(Attributes::new());
    session.set("plain", Value::Int(0));
    session.flash("a", Value::Int(1));
    session.flash("b", Value::Int(2));
    let flashed = session.flashed();
    assert_eq!(flashed.len(), 2);
    assert_eq!(flashed.get("a"), Some(&Value::Int(1)));
    assert_eq!(flashed.get("b"), Some(&Value::Int(2)));
}

#[test]
fn flash_is_refused_where_the_list_of_this_cycle_is_no_array() {
    let mut session = start(Attributes::new());
    session.set("_flash.new", text("broken"));
    assert!(!session.can_flash("status", &text("saved")));
    assert!(!session.can_keep());
}

#[test]
fn now_is_refused_where_the_list_of_the_previous_cycle_is_no_array() {
    let mut session = start(Attributes::new());
    session.set("_flash.old", Value::Int(1));
    assert!(!session.can_flash_now("notice", &text("hello")));
}
