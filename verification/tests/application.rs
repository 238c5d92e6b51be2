use framework::application::Application;
use framework::blueprint::{Blueprint, Callable, CloningStrategy, Lifecycle};
use framework::config::Environment;
use framework::router::Router;

fn callable(path: &str) -> Callable {
    Callable::new(path, "app", "src/lib.rs", 1, 1)
}

#[test]
fn a_new_application_has_the_default_constructors() {
    let blueprint = Application::new().build();
    let paths: Vec<&str> = blueprint.constructors.iter().map(|c| c.callable.path.as_str()).collect();
    assert_eq!(
        paths,
        vec![
            "pavex::request::body::JsonBody::extract",
            "pavex::request::path::PathParams::extract",
            "pavex::request::query::QueryParams::extract",
            "pavex::request::body::BufferedBody::extract",
            "<pavex::request::body::BodySizeLimit as std::default::Default>::default",
        ]
    );
    assert!(blueprint.constructors.iter().all(|c| c.lifecycle == Lifecycle::RequestScoped));
    assert_eq!(
        blueprint.constructors[0].error_handler.as_ref().unwrap().path,
        "pavex::request::body::errors::ExtractJsonBodyError::into_response"
    );
    assert!(blueprint.constructors[4].error_handler.is_none());
    assert!(blueprint.routes.is_empty());
    assert!(blueprint.middlewares.is_empty());
}

#[test]
fn constructors_are_registered_with_their_lifecycle() {
    let blueprint = Application::new()
        .bind(callable("crate::a"), Some(callable("crate::a_failed")))
        .request_scoped(callable("crate::b"), CloningStrategy::NeverClone, None)
        .singleton(callable("crate::c"), CloningStrategy::CloneIfNecessary, None)
        .build();
    let added = &blueprint.constructors[5..];
    assert_eq!(added.len(), 3);
    assert_eq!(added[0].callable.path, "crate::a");
    assert_eq!(added[0].lifecycle, Lifecycle::Transient);
    assert_eq!(added[0].cloning, None);
    assert_eq!(added[0].error_handler.as_ref().unwrap().path, "crate::a_failed");
    assert_eq!(added[1].lifecycle, Lifecycle::RequestScoped);
    assert_eq!(added[1].cloning, Some(CloningStrategy::NeverClone));
    assert_eq!(added[2].lifecycle, Lifecycle::Singleton);
    assert_eq!(added[2].cloning, Some(CloningStrategy::CloneIfNecessary));
}

#[test]
fn routes_are_compiled_before_global_middleware_whatever_the_order() {
    let app = Application::new()
        .global_middleware(callable("crate::first"))
        .middleware(vec![("auth".to_string(), callable("crate::auth"))])
        .routes(|| {
            let mut router = Router::new();
            router.get("/open", callable("crate::open")).finish();
            router.get("/closed", callable("crate::closed")).middleware("auth").finish();
            router
        })
        .global_middleware(callable("crate::second"))
        .routes(|| {
            let mut router = Router::new();
            router.post("/more", callable("crate::more")).finish();
            router
        });
    assert!(app.can_build());
    let blueprint = app.build();
    let routes: Vec<&str> = blueprint.routes.iter().map(|r| r.path.as_str()).collect();
    assert_eq!(routes, vec!["/open", "/more"]);
    assert_eq!(blueprint.nested.len(), 1);
    assert_eq!(blueprint.nested[0].routes[0].path, "/closed");
    assert_eq!(blueprint.nested[0].middlewares[0].middleware.path, "crate::auth");
    let global: Vec<&str> = blueprint.middlewares.iter().map(|m| m.middleware.path.as_str()).collect();
    assert_eq!(global, vec!["crate::first", "crate::second"]);
}

#[test]
fn an_application_with_an_unregistered_middleware_cannot_be_built() {
    let app = Application::new().routes(|| {
        let mut router = Router::new();
        router.get("/closed", callable("crate::closed")).middleware("auth").finish();
        router
    });
    assert!(!app.can_build());
    assert_eq!(app.first_unregistered(), Some(("/closed".to_string(), "auth".to_string())));
    let app = app.middleware(vec![("auth".to_string(), callable("crate::auth"))]);
    assert!(app.can_build());
    assert_eq!(app.first_unregistered(), None);
}

#[test]
fn of_two_middleware_with_one_name_the_later_one_stays() {
    let blueprint = Application::new()
        .middleware(vec![
            ("auth".to_string(), callable("crate::old")),
            ("auth".to_string(), callable("crate::new")),
        ])
        .routes(|| {
            let mut router = Router::new();
            router.get("/closed", callable("crate::closed")).middleware("auth").finish();
            router
        })
        .build();
    assert_eq!(blueprint.nested[0].middlewares[0].middleware.path, "crate::new");
}

#[test]
fn telemetry_registers_the_root_span_and_the_logger() {
    let blueprint = Application::new().with_telemetry().build();
    assert_eq!(blueprint.constructors[5].callable.path, "crate::telemetry::RootSpan::new");
    assert_eq!(blueprint.constructors[5].lifecycle, Lifecycle::RequestScoped);
    assert_eq!(blueprint.constructors[5].cloning, Some(CloningStrategy::CloneIfNecessary));
    assert_eq!(blueprint.middlewares.len(), 1);
    assert_eq!(blueprint.middlewares[0].middleware.path, "crate::telemetry::logger");
}

#[test]
fn an_integration_registers_with_the_blueprint() {
    let blueprint = Application::new()
        .register(|mut bp: Blueprint| {
            framework::middleware::register(&mut bp);
            bp
        })
        .build();
    assert_eq!(blueprint.constructors.len(), 7);
    assert_eq!(blueprint.constructors[5].callable.path, "crate::Session::new");
    assert_eq!(blueprint.middlewares[0].middleware.path, "crate::StartSession::handle");
}

#[test]
fn profiles_have_names() {
    assert_eq!(Environment::Test.as_str(), "test");
    assert_eq!(Environment::Dev.as_str(), "dev");
    assert_eq!(Environment::Prod.as_str(), "prod");
    assert_eq!(Environment::from_name("test"), Some(Environment::Test));
    assert_eq!(Environment::from_name("dev"), Some(Environment::Dev));
    assert_eq!(Environment::from_name("development"), Some(Environment::Dev));
    assert_eq!(Environment::from_name("prod"), Some(Environment::Prod));
    assert_eq!(Environment::from_name("production"), Some(Environment::Prod));
    assert_eq!(Environment::from_name("staging"), None);
    assert_eq!(Environment::from_name(""), None);
}
