use framework::attributes::Attributes;
use framework::http::{Method, RequestHead};
use framework::text::{
    joined, joined3, last_segment_of, list_contains, list_joined, list_unique, list_without, split,
    str_all_alphanumeric, str_eq,
};
use framework::value::Value;

fn list(items: &[&str]) -> Vec<String> {
    items.iter().map(|s| s.to_string()).collect()
}

#[test]
fn split_gives_the_parts_between_separators() {
    assert_eq!(split("a=1; b=2", ';'), list(&["a=1", " b=2"]));
    assert_eq!(split("", ';'), list(&[""]));
    assert_eq!(split(";", ';'), list(&["", ""]));
    assert_eq!(split("a;;b;", ';'), list(&["a", "", "b", ""]));
    assert_eq!(split("no separator", ';'), list(&["no separator"]));
    assert_eq!(split("é;ü", ';'), list(&["é", "ü"]));
}

#[test]
fn last_segment_is_the_last_part_that_is_not_empty() {
    assert_eq!(last_segment_of("/contacts", '/'), Some("contacts".to_string()));
    assert_eq!(last_segment_of("/admin/users/", '/'), Some("users".to_string()));
    assert_eq!(last_segment_of("a//b///", '/'), Some("b".to_string()));
    assert_eq!(last_segment_of("plain", '/'), Some("plain".to_string()));
    assert_eq!(last_segment_of("", '/'), None);
    assert_eq!(last_segment_of("///", '/'), None);
    assert_eq!(last_segment_of("/é", '/'), Some("é".to_string()));
}

#[test]
fn strings_are_joined_and_compared() {
    assert_eq!(joined("/auth", "/login"), "/auth/login");
    assert_eq!(joined3("a", ".", "b"), "a.b");
    assert!(str_eq("abc", "abc"));
    assert!(!str_eq("abc", "abd"));
    assert!(!str_eq("abc", "ab"));
    assert!(str_all_alphanumeric("abcXYZ019"));
    assert!(str_all_alphanumeric(""));
    assert!(!str_all_alphanumeric("a-b"));
    assert!(!str_all_alphanumeric("é"));
}

#[test]
fn lists_are_searched_joined_and_filtered() {
    let a = list(&["x", "y", "x"]);
    let b = list(&["y", "z"]);
    assert!(list_contains(&a, "y"));
    assert!(!list_contains(&a, "z"));
    assert_eq!(list_joined(&a, &b), list(&["x", "y", "x", "y", "z"]));
    assert_eq!(list_unique(&list_joined(&a, &b)), list(&["x", "y", "z"]));
    assert_eq!(list_without(&a, &b), list(&["x", "x"]));
    assert_eq!(list_without(&a, &list(&[])), a);
}

#[test]
fn attributes_behave_as_a_mapping() {
    let mut attributes = Attributes::new();
    assert_eq!(attributes.len(), 0);
    attributes.insert("a", Value::Int(1));
    attributes.insert("b", Value::Int(2));
    attributes.insert("a", Value::Int(3));
    assert_eq!(attributes.len(), 2);
    assert!(attributes.contains_key("a"));
    assert_eq!(attributes.get("a"), Some(&Value::Int(3)));
    assert_eq!(attributes.remove("a"), Some(Value::Int(3)));
    assert_eq!(attributes.remove("a"), None);
    assert!(!attributes.contains_key("a"));
    let mut keys = attributes.keys();
    keys.sort();
    assert_eq!(keys, list(&["b"]));
    let copy = attributes.clone();
    attributes.clear();
    assert_eq!(attributes.len(), 0);
    assert_eq!(copy.get("b"), Some(&Value::Int(2)));
}

#[test]
fn attributes_are_made_of_entries_and_merged() {
    let mut base = Attributes::from_entries(vec![
        ("a".to_string(), Value::Int(1)),
        ("b".to_string(), Value::Int(2)),
        ("a".to_string(), Value::Int(3)),
    ]);
    assert_eq!(base.len(), 2);
    assert_eq!(base.get("a"), Some(&Value::Int(3)));
    let other = Attributes::from_entries(vec![
        ("b".to_string(), Value::Null),
        ("c".to_string(), Value::Bool(true)),
    ]);
    base.merge(&other);
    assert_eq!(base.len(), 3);
    assert_eq!(base.get("b"), Some(&Value::Null));
    assert_eq!(base.get("c"), Some(&Value::Bool(true)));
    assert_eq!(base.entries().len(), 3);
}

#[test]
fn values_tell_what_they_hold() {
    assert!(Value::Null.is_null());
    assert!(!Value::Int(0).is_null());
    assert!(Value::Array(vec![]).is_array());
    assert!(!Value::Text(String::new()).is_array());
    assert_eq!(Value::text("x"), Value::Text("x".to_string()));
    let keys = list(&["a", "b"]);
    let value = Value::from_keys(&keys);
    assert_eq!(value, Value::Array(vec![Value::text("a"), Value::text("b")]));
    assert_eq!(value.as_keys(), Some(keys));
    assert_eq!(Value::Array(vec![Value::text("a"), Value::Int(1)]).as_keys(), None);
    assert_eq!(Value::Null.as_keys(), None);
    assert_eq!(Value::Array(vec![]).as_keys(), Some(vec![]));
}

#[test]
fn headers_are_found_by_name() {
    let req = RequestHead {
        method: Method::Get,
        path: "/".to_string(),
        uri: "/".to_string(),
        headers: vec![
            ("accept".to_string(), "a".to_string()),
            ("cookie".to_string(), "first".to_string()),
            ("cookie".to_string(), "second".to_string()),
        ],
    };
    assert_eq!(req.header("cookie"), Some(&"first".to_string()));
    assert_eq!(req.header("accept"), Some(&"a".to_string()));
    assert_eq!(req.header("host"), None);
    assert_eq!(Method::Delete.as_str(), "DELETE");
    assert_eq!(Method::Get.as_str(), "GET");
}
