use framework::attributes::Attributes;
use framework::config::CsrfConfig;
use framework::csrf::{TokenMismatchError, VerifyCsrfToken};
use framework::http::{Method, RequestHead};
use framework::session::Session;
use framework::value::Value;

fn request(method: Method, path: &str, headers: Vec<(&str, &str)>) -> RequestHead {
    RequestHead {
        method,
        path: path.to_string(),
        uri: path.to_string(),
        headers: headers.into_iter().map(|(n, v)| (n.to_string(), v.to_string())).collect(),
    }
}

fn session_with_token(token: &str) -> Session {
    let mut attributes = Attributes::new();
    attributes.insert("_token", Value::Text(token.to_string()));
    let mut session = Session::new();
    session.start(None, attributes).unwrap();
    session
}

fn no_exclusions() -> CsrfConfig {
    CsrfConfig { exclude_paths: vec![] }
}

#[test]
fn a_post_without_a_token_fails_with_a_mismatch() {
    let session = session_with_token("secret");
    let req = request(Method::Post, "/contacts", vec![]);
    let result = VerifyCsrfToken::handle(&req, &session, &no_exclusions(), "prod");
    assert_eq!(result, Err(TokenMismatchError {}));
}

#[test]
fn a_post_with_the_token_of_its_session_passes() {
    let session = session_with_token("secret");
    let req = request(Method::Post, "/contacts", vec![("x-csrf-token", "secret")]);
    assert_eq!(VerifyCsrfToken::handle(&req, &session, &no_exclusions(), "prod"), Ok(()));
}

#[test]
fn a_post_with_another_token_fails() {
    let session = session_with_token("secret");
    let req = request(Method::Post, "/contacts", vec![("x-csrf-token", "guess")]);
    assert!(VerifyCsrfToken::handle(&req, &session, &no_exclusions(), "").is_err());
    assert!(!VerifyCsrfToken::tokens_match(&req, &session));
}

#[test]
fn requests_that_read_pass_without_a_token() {
    let session = session_with_token("secret");
    for method in [Method::Get, Method::Head, Method::Options] {
        let req = request(method, "/contacts", vec![]);
        assert!(VerifyCsrfToken::is_reading(&req));
        assert!(VerifyCsrfToken::handle(&req, &session, &no_exclusions(), "prod").is_ok());
    }
    for method in [Method::Post, Method::Put, Method::Patch, Method::Delete] {
        let req = request(method, "/contacts", vec![]);
        assert!(!VerifyCsrfToken::is_reading(&req));
        assert!(VerifyCsrfToken::handle(&req, &session, &no_exclusions(), "prod").is_err());
    }
}

#[test]
fn a_test_profile_passes_without_a_token() {
    let session = session_with_token("secret");
    let req = request(Method::Post, "/contacts", vec![]);
    assert!(VerifyCsrfToken::handle(&req, &session, &no_exclusions(), "test").is_ok());
    assert!(VerifyCsrfToken::handle(&req, &session, &no_exclusions(), "testing").is_ok());
    assert!(VerifyCsrfToken::running_tests("test"));
    assert!(VerifyCsrfToken::running_tests("testing"));
    assert!(!VerifyCsrfToken::running_tests(""));
    assert!(!VerifyCsrfToken::running_tests("prod"));
    assert!(!VerifyCsrfToken::running_tests("Test"));
}

#[test]
fn an_excluded_path_passes_without_a_token() {
    let session = session_with_token("secret");
    let config = CsrfConfig { exclude_paths: vec!["/webhooks".to_string(), "/ping".to_string()] };
    let excluded = request(Method::Post, "/ping", vec![]);
    assert!(VerifyCsrfToken::is_excluded(&excluded, &config));
    assert!(VerifyCsrfToken::handle(&excluded, &session, &config, "prod").is_ok());
    let other = request(Method::Post, "/ping/more", vec![]);
    assert!(!VerifyCsrfToken::is_excluded(&other, &config));
    assert!(VerifyCsrfToken::handle(&other, &session, &config, "prod").is_err());
}

#[test]
fn get_token_reads_the_header() {
    let req = request(Method::Post, "/", vec![("accept", "*/*"), ("x-csrf-token", "abc")]);
    assert_eq!(VerifyCsrfToken::get_token(&req), Some("abc".to_string()));
    let req = request(Method::Post, "/", vec![("accept", "*/*")]);
    assert_eq!(VerifyCsrfToken::get_token(&req), None);
}

#[test]
fn a_session_without_a_token_matches_no_token() {
    let mut session = Session::new();
    session.start(None, Attributes::new()).unwrap();
    session.forget("_token");
    let req = request(Method::Post, "/", vec![("x-csrf-token", "")]);
    assert!(!VerifyCsrfToken::tokens_match(&req, &session));
}

#[test]
fn a_mismatch_is_answered_with_status_419() {
    let error = TokenMismatchError {};
    assert_eq!(error.status(), 419);
    assert_eq!(error.message(), "CSRF token mismatch.");
    let response = error.into_response();
    assert_eq!(response.status, 419);
    assert_eq!(response.body, "CSRF token mismatch.");
    assert!(response.headers.is_empty());
}
