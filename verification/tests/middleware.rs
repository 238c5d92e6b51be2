use framework::attributes::Attributes;
use framework::blueprint::{Blueprint, CloningStrategy, Lifecycle};
use framework::config::{CsrfConfig, SessionConfig, Span};
use framework::cookies::SameSite;
use framework::http::{Method, RequestHead};
use framework::middleware::{register, Action, Event, Phase, StartSession};
use framework::response::Response;
use framework::session::{is_valid_id, Session};
use framework::value::Value;

const GOOD_ID: &str = "abcdefghijABCDEFGHIJ0123456789abcdefghij";

fn config() -> SessionConfig {
    SessionConfig {
        driver: Some("file".to_string()),
        lifetime: Span { secs: 7200, nanos: 0 },
        file_location: "storage/sessions".to_string(),
        cookie_name: "session".to_string(),
        path: "/".to_string(),
        domain: None,
        secure: false,
        http_only: true,
        lottery: [0, 20],
        same_site: "lax".to_string(),
        csrf: CsrfConfig { exclude_paths: vec![] },
    }
}

fn request(method: Method, uri: &str, headers: Vec<(&str, &str)>) -> RequestHead {
    let path = uri.split('?').next().unwrap().to_string();
    RequestHead {
        method,
        path,
        uri: uri.to_string(),
        headers: headers.into_iter().map(|(n, v)| (n.to_string(), v.to_string())).collect(),
    }
}

fn text(s: &str) -> Value {
    Value::Text(s.to_string())
}

#[test]
fn session_id_is_read_from_the_cookie_of_the_configured_name() {
    let req = request(Method::Get, "/", vec![("cookie", "theme=dark; session=abc; lang=en")]);
    assert_eq!(StartSession::session_id(&req, &config()), Some("abc".to_string()));
}

#[test]
fn session_id_is_absent_without_a_cookie_header() {
    let req = request(Method::Get, "/", vec![("accept", "session=abc")]);
    assert_eq!(StartSession::session_id(&req, &config()), None);
}

#[test]
fn session_id_is_absent_where_no_cookie_has_the_name() {
    let req = request(Method::Get, "/", vec![("cookie", "theme=dark; sessions=abc")]);
    assert_eq!(StartSession::session_id(&req, &config()), None);
}

#[test]
fn session_id_is_percent_decoded() {
    let req = request(Method::Get, "/", vec![("cookie", "session=a%20b%3Dc")]);
    assert_eq!(StartSession::session_id(&req, &config()), Some("a b=c".to_string()));
}

#[test]
fn session_id_is_taken_from_the_last_cookie_of_the_name() {
    let req = request(
        Method::Get,
        "/",
        vec![("cookie", "session=first; session=second"), ("cookie", "session=third")],
    );
    assert_eq!(StartSession::session_id(&req, &config()), Some("third".to_string()));
}

#[test]
fn pieces_that_are_no_cookies_are_passed_over() {
    let req = request(Method::Get, "/", vec![("cookie", "nonsense; =x; session=abc;;")]);
    assert_eq!(StartSession::session_id(&req, &config()), Some("abc".to_string()));
}

#[test]
fn the_cookie_carries_the_session_id_and_the_configured_attributes() {
    let mut session = Session::new();
    session.set_id(Some(GOOD_ID.to_string()));
    let mut response = Response::new(200);
    response.append_header("content-type", "text/plain".to_string());
    StartSession::add_cookie_to_response(&session, &mut response, &config());
    assert_eq!(response.headers.len(), 2);
    assert_eq!(response.headers[0], ("content-type".to_string(), "text/plain".to_string()));
    assert_eq!(
        response.headers[1],
        ("set-cookie".to_string(), format!("session={GOOD_ID}; HttpOnly; SameSite=Lax; Path=/"))
    );
    assert_eq!(response.status, 200);
}

#[test]
fn the_cookie_honours_secure_domain_and_same_site() {
    let mut session = Session::new();
    session.set_id(Some(GOOD_ID.to_string()));
    let mut cfg = config();
    cfg.secure = true;
    cfg.http_only = false;
    cfg.domain = Some(".example.com".to_string());
    cfg.same_site = "strict".to_string();
    cfg.path = "/app".to_string();
    cfg.cookie_name = "sid".to_string();
    let mut response = Response::new(204);
    StartSession::add_cookie_to_response(&session, &mut response, &cfg);
    assert_eq!(
        response.headers[0].1,
        format!("sid={GOOD_ID}; SameSite=Strict; Secure; Path=/app; Domain=example.com")
    );
}

#[test]
fn the_cookie_has_no_same_site_for_another_word() {
    let mut session = Session::new();
    session.set_id(Some(GOOD_ID.to_string()));
    let mut cfg = config();
    cfg.same_site = "Lax".to_string();
    cfg.http_only = false;
    let mut response = Response::new(200);
    StartSession::add_cookie_to_response(&session, &mut response, &cfg);
    assert_eq!(response.headers[0].1, format!("session={GOOD_ID}; Path=/"));
}

#[test]
fn the_cookie_with_same_site_none_is_not_secure_unless_configured() {
    let mut session = Session::new();
    session.set_id(Some(GOOD_ID.to_string()));
    let mut cfg = config();
    cfg.same_site = "none".to_string();
    cfg.http_only = false;
    let mut response = Response::new(200);
    StartSession::add_cookie_to_response(&session, &mut response, &cfg);
    assert_eq!(response.headers[0].1, format!("session={GOOD_ID}; SameSite=None; Path=/"));
}

#[test]
fn same_site_is_named_in_lower_case() {
    assert_eq!(SameSite::from_name("strict"), Some(SameSite::Strict));
    assert_eq!(SameSite::from_name("lax"), Some(SameSite::Lax));
    assert_eq!(SameSite::from_name("none"), Some(SameSite::Unrestricted));
    assert_eq!(SameSite::from_name(""), None);
    assert_eq!(SameSite::from_name("STRICT"), None);
}

#[test]
fn the_url_of_a_plain_get_is_remembered() {
    let mut session = Session::new();
    session.start(None, Attributes::new()).unwrap();
    let req = request(Method::Get, "/contacts?page=2", vec![("x-requested-with", "fetch")]);
    StartSession::store_current_url(&mut session, &req);
    assert_eq!(session.previous_url(), Some("/contacts?page=2".to_string()));
}

#[test]
fn the_url_of_a_scripted_get_is_not_remembered() {
    let mut session = Session::new();
    session.start(None, Attributes::new()).unwrap();
    let req = request(Method::Get, "/contacts", vec![("x-requested-with", "XMLHttpRequest")]);
    StartSession::store_current_url(&mut session, &req);
    assert_eq!(session.previous_url(), None);
}

#[test]
fn the_url_of_a_post_is_not_remembered() {
    let mut session = Session::new();
    session.start(None, Attributes::new()).unwrap();
    let req = request(Method::Post, "/contacts", vec![]);
    StartSession::store_current_url(&mut session, &req);
    assert_eq!(session.previous_url(), None);
}

#[test]
fn a_draw_wins_where_it_is_not_above_the_first_number() {
    assert!(StartSession::lottery_wins(1, [1, 20]));
    assert!(!StartSession::lottery_wins(2, [1, 20]));
    assert!(StartSession::lottery_wins(2, [2, 100]));
    assert!(!StartSession::lottery_wins(1, [0, 20]));
    assert!(StartSession::lottery_wins(19, [19, 20]));
}

#[test]
fn garbage_is_never_collected_where_no_draw_can_win() {
    let mut cfg = config();
    cfg.lottery = [0, 20];
    for _ in 0..500 {
        assert!(!StartSession::collect_garbage(&cfg));
    }
}

#[test]
fn garbage_is_always_collected_where_every_draw_wins() {
    let mut cfg = config();
    cfg.lottery = [19, 20];
    for _ in 0..500 {
        assert!(StartSession::collect_garbage(&cfg));
    }
    cfg.lottery = [1, 2];
    for _ in 0..500 {
        assert!(StartSession::collect_garbage(&cfg));
    }
}

#[test]
fn one_request_in_about_twenty_collects_garbage() {
    let mut cfg = config();
    cfg.lottery = [1, 20];
    let total = 40_000;
    let mut collected = 0;
    for _ in 0..total {
        if StartSession::collect_garbage(&cfg) {
            collected += 1;
        }
    }
    let fraction = collected as f64 / total as f64;
    assert!(fraction > 0.035 && fraction < 0.07, "fraction was {fraction}");
}

#[test]
fn without_a_driver_the_request_bypasses_the_session() {
    let mut cfg = config();
    cfg.driver = None;
    let mut machine = StartSession::new();
    let mut session = Session::new();
    let req = request(Method::Get, "/", vec![("cookie", "session=abc")]);
    let action = machine.handle(Event::Request, &req, &mut session, &cfg);
    assert!(matches!(action, Action::Bypass));
    assert_eq!(machine.current_phase(), Phase::Done);
    assert!(!session.has_started());
}

#[test]
fn a_request_with_a_cookie_goes_through_the_whole_life_of_a_session() {
    let cfg = config();
    let mut machine = StartSession::new();
    let mut session = Session::new();
    let cookie = format!("session={GOOD_ID}");
    let req = request(Method::Get, "/dashboard", vec![("cookie", &cookie)]);
    assert_eq!(machine.current_phase(), Phase::Start);

    let action = machine.handle(Event::Request, &req, &mut session, &cfg);
    match action {
        Action::Read(id) => assert_eq!(id, GOOD_ID),
        other => panic!("unexpected action {other:?}"),
    }
    assert_eq!(machine.current_phase(), Phase::Loading);

    let mut stored = Attributes::new();
    stored.insert("user", Value::Int(7));
    stored.insert("_token", text("held"));
    stored.insert("_flash.old", Value::Array(vec![text("notice")]));
    stored.insert("_flash.new", Value::Array(vec![]));
    stored.insert("notice", text("gone after this request"));
    let action = machine.handle(Event::Loaded(stored), &req, &mut session, &cfg);
    assert!(matches!(action, Action::Invoke));
    assert_eq!(machine.current_phase(), Phase::Running);
    assert!(session.has_started());
    assert_eq!(session.id(), GOOD_ID);
    assert_eq!(session.get("user"), Some(Value::Int(7)));
    assert_eq!(session.token(), Some("held".to_string()));

    session.flash("status", text("saved"));
    let response = Response::new(200);
    let action = machine.handle(Event::Responded(response), &req, &mut session, &cfg);
    match action {
        Action::Write { id, attributes } => {
            assert_eq!(id, GOOD_ID);
            assert_eq!(attributes.get("user"), Some(&Value::Int(7)));
            assert_eq!(attributes.get("notice"), None);
            assert_eq!(attributes.get("status"), Some(&text("saved")));
            assert_eq!(attributes.get("_previous.url"), Some(&text("/dashboard")));
            assert_eq!(attributes.get("_flash.old"), Some(&Value::Array(vec![text("status")])));
            assert_eq!(attributes.get("_flash.new"), Some(&Value::Array(vec![])));
        },
        other => panic!("unexpected action {other:?}"),
    }
    assert_eq!(machine.current_phase(), Phase::Saving);
    assert!(!session.has_started());

    let action = machine.handle(Event::Saved, &req, &mut session, &cfg);
    match action {
        Action::Return(response) => {
            assert_eq!(response.status, 200);
            assert_eq!(
                response.headers,
                vec![(
                    "set-cookie".to_string(),
                    format!("session={GOOD_ID}; HttpOnly; SameSite=Lax; Path=/")
                )]
            );
        },
        other => panic!("unexpected action {other:?}"),
    }
    assert_eq!(machine.current_phase(), Phase::Done);
}

#[test]
fn a_request_without_a_cookie_starts_a_fresh_session_at_once() {
    let mut cfg = config();
    cfg.lottery = [19, 20];
    let mut machine = StartSession::new();
    let mut session = Session::new();
    let req = request(Method::Post, "/login", vec![]);
    let action = machine.handle(Event::Request, &req, &mut session, &cfg);
    assert!(matches!(action, Action::Collect));
    assert_eq!(machine.current_phase(), Phase::Collecting);
    assert!(session.has_started());
    assert!(is_valid_id(&session.id()));
    assert!(is_valid_id(&session.token().unwrap()));

    let action = machine.handle(Event::Collected, &req, &mut session, &cfg);
    assert!(matches!(action, Action::Invoke));
    assert_eq!(machine.current_phase(), Phase::Running);
}

#[test]
fn a_cookie_that_is_no_valid_id_gives_a_fresh_id() {
    let cfg = config();
    let mut machine = StartSession::new();
    let mut session = Session::new();
    let req = request(Method::Get, "/", vec![("cookie", "session=../../etc/passwd")]);
    let action = machine.handle(Event::Request, &req, &mut session, &cfg);
    assert!(matches!(action, Action::Read(_)));
    machine.handle(Event::Loaded(Attributes::new()), &req, &mut session, &cfg);
    assert_ne!(session.id(), "../../etc/passwd");
    assert!(is_valid_id(&session.id()));
}

#[test]
fn register_adds_the_session_to_a_blueprint() {
    let mut blueprint = Blueprint::new();
    register(&mut blueprint);
    assert_eq!(blueprint.constructors.len(), 2);
    assert_eq!(blueprint.constructors[0].callable.path, "crate::Session::new");
    assert_eq!(blueprint.constructors[0].lifecycle, Lifecycle::RequestScoped);
    assert_eq!(blueprint.constructors[0].cloning, Some(CloningStrategy::CloneIfNecessary));
    assert_eq!(blueprint.constructors[1].callable.path, "crate::Manager::new");
    assert_eq!(blueprint.constructors[1].lifecycle, Lifecycle::Singleton);
    assert_eq!(blueprint.constructors[1].cloning, None);
    assert_eq!(blueprint.middlewares.len(), 1);
    assert_eq!(blueprint.middlewares[0].middleware.path, "crate::StartSession::handle");
    assert!(blueprint.routes.is_empty());
}
