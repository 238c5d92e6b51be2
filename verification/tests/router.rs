use framework::blueprint::{Blueprint, Callable, Registry};
use framework::http::Method;
use framework::router::resource::ResourceMethod;
use framework::router::route::{NamedRoutes, SerializedRoute};
use framework::router::Router;

fn handler(path: &str) -> Callable {
    Callable::new(path, "app", "src/routes.rs", 10, 5)
}

fn summary(route: &SerializedRoute) -> (Method, String, Option<String>) {
    (route.method, route.path.clone(), route.name.clone())
}

#[test]
fn new_router_has_no_routes() {
    assert_eq!(Router::new().routes().len(), 0);
}

#[test]
fn default_route_is_a_get_route() {
    let route = SerializedRoute::default();
    assert_eq!(route.method, Method::Get);
    assert_eq!(route.path, "");
    assert_eq!(route.name, None);
    assert!(route.middleware.is_empty());
    assert!(route.error_handler.is_none());
    assert_eq!(route.request_handler.path, "core::unreachable");
}

#[test]
fn each_method_function_begins_a_route_of_its_method() {
    let mut router = Router::new();
    router.get("/a", handler("crate::a")).finish();
    router.put("/b", handler("crate::b")).finish();
    router.post("/c", handler("crate::c")).finish();
    router.head("/d", handler("crate::d")).finish();
    router.patch("/e", handler("crate::e")).finish();
    router.delete("/f", handler("crate::f")).finish();
    router.options("/g", handler("crate::g")).finish();
    let got: Vec<(Method, String)> =
        router.routes().iter().map(|r| (r.method, r.path.clone())).collect();
    assert_eq!(
        got,
        vec![
            (Method::Get, "/a".to_string()),
            (Method::Put, "/b".to_string()),
            (Method::Post, "/c".to_string()),
            (Method::Head, "/d".to_string()),
            (Method::Patch, "/e".to_string()),
            (Method::Delete, "/f".to_string()),
            (Method::Options, "/g".to_string()),
        ]
    );
    assert_eq!(router.routes()[2].request_handler.path, "crate::c");
    assert_eq!(router.routes()[2].request_handler.line, 10);
}

#[test]
fn a_route_joins_the_table_when_it_is_finished() {
    let mut router = Router::new();
    {
        let mut route = router.get("/healthz", handler("crate::health_check"));
        route.name("health-check");
        route.middleware(vec!["auth", "log"]);
        route.error_handler(handler("crate::on_error"));
        route.finish();
    }
    assert_eq!(router.routes().len(), 1);
    let route = &router.routes()[0];
    assert_eq!(route.name, Some("health-check".to_string()));
    assert_eq!(route.middleware, vec!["auth".to_string(), "log".to_string()]);
    assert_eq!(route.error_handler.as_ref().unwrap().path, "crate::on_error");
}

#[test]
fn a_route_that_is_not_finished_does_not_join_the_table() {
    let mut router = Router::new();
    {
        let mut route = router.get("/healthz", handler("crate::health_check"));
        route.name("health-check");
    }
    assert_eq!(router.routes().len(), 0);
}

#[test]
fn builder_carries_name_prefix_and_middleware_over() {
    let mut router = Router::new();
    {
        let mut builder = router.name("admin");
        builder.prefix("/admin").middleware("auth");
        builder.get("/users", handler("crate::users")).finish();
        builder.post("/users", handler("crate::create_user")).finish();
    }
    router.path("/api").put("/things", handler("crate::things")).finish();
    router.middleware(vec!["a", "b"]).delete("/x", handler("crate::x")).finish();
    let routes = router.routes();
    assert_eq!(summary(&routes[0]), (Method::Get, "/admin/users".to_string(), Some("admin".to_string())));
    assert_eq!(routes[0].middleware, vec!["auth".to_string()]);
    assert_eq!(summary(&routes[1]), (Method::Post, "/admin/users".to_string(), Some("admin".to_string())));
    assert_eq!(summary(&routes[2]), (Method::Put, "/api/things".to_string(), None));
    assert_eq!(summary(&routes[3]), (Method::Delete, "/x".to_string(), None));
    assert_eq!(routes[3].middleware, vec!["a".to_string(), "b".to_string()]);
}

#[test]
fn group_prefixes_paths_and_names() {
    let mut router = Router::new();
    {
        let mut group = router.group(|mut inner: Router| {
            inner.get("/login", handler("crate::login")).finish();
            {
                let mut logout = inner.delete("/logout", handler("crate::logout"));
                logout.name(".logout").middleware("auth");
                logout.finish();
            }
            inner
        });
        group.prefix("/auth").name("auth");
        group.finish();
    }
    let routes = router.routes();
    assert_eq!(routes.len(), 2);
    assert_eq!(summary(&routes[0]), (Method::Get, "/auth/login".to_string(), Some("auth".to_string())));
    assert_eq!(
        summary(&routes[1]),
        (Method::Delete, "/auth/logout".to_string(), Some("auth.logout".to_string()))
    );
    assert_eq!(routes[1].middleware, vec!["auth".to_string()]);
}

#[test]
fn group_without_name_or_prefix_leaves_routes_as_they_are() {
    let mut router = Router::new();
    router
        .group(|mut inner: Router| {
            inner.get("/a", handler("crate::a")).name("a").finish();
            inner
        })
        .finish();
    assert_eq!(summary(&router.routes()[0]), (Method::Get, "/a".to_string(), Some("a".to_string())));
}

#[test]
fn group_middleware_come_before_those_of_the_route() {
    let mut router = Router::new();
    {
        let mut group = router.group(|mut inner: Router| {
            inner.get("/a", handler("crate::a")).middleware("own").finish();
            inner.get("/b", handler("crate::b")).finish();
            inner
        });
        group.middleware(vec!["outer", "inner"]);
        group.finish();
    }
    let routes = router.routes();
    assert_eq!(
        routes[0].middleware,
        vec!["outer".to_string(), "inner".to_string(), "own".to_string()]
    );
    assert_eq!(routes[1].middleware, vec!["outer".to_string(), "inner".to_string()]);
}

#[test]
fn builder_hands_name_and_prefix_to_its_group() {
    let mut router = Router::new();
    {
        let mut builder = router.name("auth");
        builder.prefix("/auth");
        builder
            .group(|mut inner: Router| {
                inner.delete("/logout", handler("crate::logout")).name(".logout").finish();
                inner
            })
            .finish();
    }
    assert_eq!(
        summary(&router.routes()[0]),
        (Method::Delete, "/auth/logout".to_string(), Some("auth.logout".to_string()))
    );
}

#[test]
fn resource_expands_into_seven_routes() {
    let mut router = Router::new();
    router.resource("/contacts", handler("crate::ContactsController")).finish();
    let got: Vec<(Method, String, Option<String>)> = router.routes().iter().map(summary).collect();
    let name = |s: &str| Some(s.to_string());
    assert_eq!(
        got,
        vec![
            (Method::Get, "/contacts".to_string(), name("contacts.index")),
            (Method::Get, "/contacts/create".to_string(), name("contacts.create")),
            (Method::Post, "/contacts".to_string(), name("contacts.store")),
            (Method::Get, "/contacts/:contact".to_string(), name("contacts.show")),
            (Method::Get, "/contacts/:contact/edit".to_string(), name("contacts.edit")),
            (Method::Put, "/contacts/:contact".to_string(), name("contacts.update")),
            (Method::Delete, "/contacts/:contact".to_string(), name("contacts.destroy")),
        ]
    );
    assert_eq!(router.routes()[3].request_handler.path, "crate::ContactsController::show");
    assert_eq!(router.routes()[3].request_handler.registered_at, "app");
    assert_eq!(router.routes()[3].request_handler.line, 10);
    assert!(router.routes()[3].error_handler.is_none());
}

#[test]
fn resource_is_named_by_the_last_part_of_its_path() {
    let mut router = Router::new();
    router.resource("/admin/users/", handler("crate::Users")).only(ResourceMethod::Show).finish();
    assert_eq!(
        summary(&router.routes()[0]),
        (Method::Get, "/admin/users//:user".to_string(), Some("users.show".to_string()))
    );
}

#[test]
fn api_resource_has_no_forms() {
    let mut router = Router::new();
    router.api_resource("/photos", handler("crate::Photos")).finish();
    let names: Vec<String> = router.routes().iter().map(|r| r.name.clone().unwrap()).collect();
    assert_eq!(
        names,
        vec!["photos.index", "photos.store", "photos.show", "photos.update", "photos.destroy"]
    );
}

#[test]
fn only_narrows_the_actions() {
    let mut router = Router::new();
    {
        let mut resource = router.resource("/login", handler("crate::Login"));
        resource.only(vec!["index", "store"]).middleware("guest");
        resource.finish();
    }
    let routes = router.routes();
    assert_eq!(routes.len(), 2);
    assert_eq!(summary(&routes[0]), (Method::Get, "/login".to_string(), Some("login.index".to_string())));
    assert_eq!(summary(&routes[1]), (Method::Post, "/login".to_string(), Some("login.store".to_string())));
    assert_eq!(routes[0].middleware, vec!["guest".to_string()]);
    assert_eq!(routes[1].middleware, vec!["guest".to_string()]);
}

#[test]
fn except_strikes_actions() {
    let mut router = Router::new();
    {
        let mut resource = router.resource("/posts", handler("crate::Posts"));
        resource.except(vec![ResourceMethod::Create, ResourceMethod::Edit, ResourceMethod::Destroy]);
        resource.except(ResourceMethod::Index);
        resource.finish();
    }
    let names: Vec<String> = router.routes().iter().map(|r| r.name.clone().unwrap()).collect();
    assert_eq!(names, vec!["posts.store", "posts.show", "posts.update"]);
}

#[test]
fn resource_name_can_be_set() {
    let mut router = Router::new();
    {
        let mut resource = router.resource("/people", handler("crate::People"));
        resource.name("members").only(ResourceMethod::Show);
        resource.finish();
    }
    assert_eq!(
        summary(&router.routes()[0]),
        (Method::Get, "/people/:member".to_string(), Some("members.show".to_string()))
    );
}

#[test]
fn finish_with_takes_the_singular_as_given() {
    let mut router = Router::new();
    router.resource("/geese", handler("crate::Geese")).finish_with("bird");
    assert_eq!(router.routes()[4].path, "/geese/:bird/edit");
}

#[test]
fn route_for_follows_the_table_of_actions() {
    let callable = handler("crate::C");
    let route = ResourceMethod::Update.route_for("/things", "things", "thing", &callable);
    assert_eq!(route.method, Method::Put);
    assert_eq!(route.path, "/things/:thing");
    assert_eq!(route.name, Some("things.update".to_string()));
    assert_eq!(route.request_handler.path, "crate::C::update");
    assert!(route.middleware.is_empty());
    let route = ResourceMethod::Create.route_for("/things", "things", "thing", &callable);
    assert_eq!((route.method, route.path.as_str()), (Method::Get, "/things/create"));
    let route = ResourceMethod::Destroy.route_for("/things", "things", "thing", &callable);
    assert_eq!((route.method, route.path.as_str()), (Method::Delete, "/things/:thing"));
}

#[test]
fn actions_have_names() {
    let all = [
        (ResourceMethod::Index, "index"),
        (ResourceMethod::Create, "create"),
        (ResourceMethod::Store, "store"),
        (ResourceMethod::Show, "show"),
        (ResourceMethod::Edit, "edit"),
        (ResourceMethod::Update, "update"),
        (ResourceMethod::Destroy, "destroy"),
    ];
    for (method, name) in all {
        assert_eq!(method.as_str(), name);
        assert_eq!(ResourceMethod::from_name(name), Some(method));
    }
    assert_eq!(ResourceMethod::from_name("list"), None);
    assert_eq!(ResourceMethod::from_name("Index"), None);
}

#[test]
fn named_routes_map_names_to_paths() {
    let mut router = Router::new();
    router.get("/a", handler("crate::a")).name("a").finish();
    router.get("/unnamed", handler("crate::u")).finish();
    router.get("/b", handler("crate::b")).name("b").finish();
    router.get("/a2", handler("crate::a2")).name("a").finish();
    let named = NamedRoutes::from_routes(router.routes());
    assert_eq!(named.len(), 2);
    assert_eq!(named.get("a"), Some(&"/a2".to_string()));
    assert_eq!(named.get("b"), Some(&"/b".to_string()));
    assert_eq!(named.get("unnamed"), None);
}

fn registry(names: &[&str]) -> Registry {
    let mut registry = Registry::new();
    for name in names {
        registry.insert(name, handler(&format!("crate::middleware::{name}")));
    }
    registry
}

#[test]
fn register_puts_routes_without_middleware_into_the_blueprint() {
    let mut router = Router::new();
    router.get("/a", handler("crate::a")).error_handler(handler("crate::e")).finish();
    router.post("/b", handler("crate::b")).finish();
    let mut blueprint = Blueprint::new();
    router.register(&mut blueprint, &registry(&[]));
    assert_eq!(blueprint.routes.len(), 2);
    assert!(blueprint.nested.is_empty());
    assert!(blueprint.middlewares.is_empty());
    assert_eq!(blueprint.routes[0].path, "/a");
    assert_eq!(blueprint.routes[0].method, Method::Get);
    assert_eq!(blueprint.routes[0].request_handler.path, "crate::a");
    assert_eq!(blueprint.routes[0].error_handler.as_ref().unwrap().path, "crate::e");
    assert_eq!(blueprint.routes[1].method, Method::Post);
}

#[test]
fn register_nests_a_route_with_middleware_in_a_scope_of_its_own() {
    let mut router = Router::new();
    router.get("/open", handler("crate::open")).finish();
    router.get("/closed", handler("crate::closed")).middleware(vec!["auth", "log"]).finish();
    let mut blueprint = Blueprint::new();
    router.register(&mut blueprint, &registry(&["log", "auth", "unused"]));
    assert_eq!(blueprint.routes.len(), 1);
    assert_eq!(blueprint.routes[0].path, "/open");
    assert!(blueprint.middlewares.is_empty());
    assert_eq!(blueprint.nested.len(), 1);
    let scope = &blueprint.nested[0];
    assert_eq!(scope.routes.len(), 1);
    assert_eq!(scope.routes[0].path, "/closed");
    let wrapped: Vec<&str> = scope.middlewares.iter().map(|m| m.middleware.path.as_str()).collect();
    assert_eq!(wrapped, vec!["crate::middleware::auth", "crate::middleware::log"]);
    assert!(scope.constructors.is_empty());
    assert!(scope.nested.is_empty());
}

#[test]
fn first_unregistered_finds_the_name_that_is_not_registered() {
    let mut router = Router::new();
    router.get("/a", handler("crate::a")).middleware("auth").finish();
    router.get("/b", handler("crate::b")).middleware(vec!["auth", "guest"]).finish();
    assert_eq!(router.first_unregistered(&registry(&["auth", "guest"])), None);
    assert_eq!(
        router.first_unregistered(&registry(&["auth"])),
        Some(("/b".to_string(), "guest".to_string()))
    );
    assert_eq!(
        router.first_unregistered(&registry(&[])),
        Some(("/a".to_string(), "auth".to_string()))
    );
}
