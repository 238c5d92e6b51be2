//! The router: a declarative table of named, middleware-annotated routes,
//! groups and resources, which is compiled into a blueprint.

pub mod builder;
pub mod group;
pub mod resource;
pub mod route;

use crate::blueprint::{
    clone_optional_callable, lemma_views_push, views, Blueprint, BlueprintView, Callable,
    CallableView, ConstructorView, RegisteredRoute, RegisteredRouteView, Registry,
    WrappingMiddlewareView,
};
use crate::http::Method;
use crate::router::builder::Builder;
use crate::router::group::{RouteGroup, SerializedRouteGroup};
use crate::router::resource::{all_actions, api_actions, Resource};
use crate::router::route::{Route, RouteView, SerializedRoute};
use crate::text::{last_segment, optional_text, strings};
use vstd::prelude::*;

verus! {

/// One middleware name or several, as the builders take them.
pub trait OneOrMultiple: Sized {
    /// The names that the value stands for.
    spec fn names(&self) -> Seq<Seq<char>>;

    /// The names as a list of strings.
    fn get(self) -> (r: Vec<String>)
        ensures
            strings(r@) == self.names(),
    ;
}

impl OneOrMultiple for &str {
    open spec fn names(&self) -> Seq<Seq<char>> {
        seq![self@]
    }

    fn get(self) -> (r: Vec<String>) {
        let mut r: Vec<String> = Vec::new();
        r.push(self.to_owned());
        assert(strings(r@) =~= seq![self@]);
        r
    }
}

impl OneOrMultiple for Vec<&str> {
    open spec fn names(&self) -> Seq<Seq<char>> {
        Seq::new(self@.len(), |i: int| self@[i]@)
    }

    fn get(self) -> (r: Vec<String>) {
        let mut r: Vec<String> = Vec::new();
        let mut i: usize = 0;
        while i < self.len()
            invariant
                i <= self@.len(),
                r@.len() == i,
                forall|j: int| 0 <= j < i ==> (#[trigger] r@[j])@ == self@[j]@,
            decreases self@.len() - i,
        {
            r.push(self[i].to_owned());
            i += 1;
        }
        assert(strings(r@) =~= self.names());
        r
    }
}

/// Whether every middleware that a route of `routes` names is registered.
pub open spec fn resolved(routes: Seq<RouteView>, registry: Map<Seq<char>, CallableView>) -> bool {
    forall|i: int, j: int|
        0 <= i < routes.len() && 0 <= j < routes[i].middleware.len() ==> registry.contains_key(
            #[trigger] routes[i].middleware[j],
        )
}

/// Whether the middleware at position `j` of the route at position `i` is
/// the first that is not registered: every middleware of the routes before,
/// and every middleware before it in its route, is registered.
pub open spec fn first_unregistered_at(
    routes: Seq<RouteView>,
    registry: Map<Seq<char>, CallableView>,
    i: int,
    j: int,
) -> bool {
    &&& 0 <= i < routes.len()
    &&& 0 <= j < routes[i].middleware.len()
    &&& !registry.contains_key(routes[i].middleware[j])
    &&& forall|b: int| 0 <= b < j ==> registry.contains_key(#[trigger] routes[i].middleware[b])
    &&& forall|a: int, b: int|
        0 <= a < i && 0 <= b < routes[a].middleware.len() ==> registry.contains_key(
            #[trigger] routes[a].middleware[b],
        )
}

/// Whether `path` and `name` tell the first middleware of `routes` that is
/// not registered: the path of its route, and its name.
pub open spec fn reports(
    routes: Seq<RouteView>,
    registry: Map<Seq<char>, CallableView>,
    path: Seq<char>,
    name: Seq<char>,
) -> bool {
    exists|i: int, j: int| #[trigger]
        first_unregistered_at(routes, registry, i, j) && path == routes[i].path && name
            == routes[i].middleware[j]
}

/// The route of the dispatcher's table that `route` compiles into.
pub open spec fn registered(route: RouteView) -> RegisteredRouteView {
    RegisteredRouteView {
        path: route.path,
        method: route.method,
        request_handler: route.request_handler,
        error_handler: route.error_handler,
    }
}

/// The middleware that `names` name, in their order.
pub open spec fn wrappers(names: Seq<Seq<char>>, registry: Map<Seq<char>, CallableView>) -> Seq<
    WrappingMiddlewareView,
> {
    Seq::new(
        names.len(),
        |j: int| WrappingMiddlewareView { middleware: registry[names[j]], error_handler: None },
    )
}

/// The nested blueprint of a route with middleware: it holds the route
/// alone, wrapped by the middleware that the route names.
pub open spec fn scoped(route: RouteView, registry: Map<Seq<char>, CallableView>) -> BlueprintView {
    BlueprintView {
        constructors: Seq::empty(),
        middlewares: wrappers(route.middleware, registry),
        routes: seq![registered(route)],
        nested: Seq::empty(),
    }
}

/// `bp` with `route` compiled into it: a route without middleware joins the
/// routes of `bp`; one with middleware is nested in a scope of its own.
pub open spec fn compiled_one(
    bp: BlueprintView,
    route: RouteView,
    registry: Map<Seq<char>, CallableView>,
) -> BlueprintView {
    if route.middleware.len() == 0 {
        bp.with_route(registered(route))
    } else {
        bp.with_nested(scoped(route, registry))
    }
}

/// `bp` with the first `n` routes of `routes` compiled into it, in their
/// order.
pub open spec fn compiled(
    bp: BlueprintView,
    routes: Seq<RouteView>,
    registry: Map<Seq<char>, CallableView>,
    n: int,
) -> BlueprintView
    decreases n,
{
    if n <= 0 {
        bp
    } else {
        compiled_one(compiled(bp, routes, registry, n - 1), routes[n - 1], registry)
    }
}

/// The table of routes.
#[derive(Debug)]
pub struct Router {
    routes: Vec<SerializedRoute>,
}

impl View for Router {
    type V = Seq<RouteView>;

    closed spec fn view(&self) -> Seq<RouteView> {
        views(self.routes@)
    }
}

impl Router {
    /// A router without routes.
    pub fn new() -> (r: Router)
        ensures
            r@ == Seq::<RouteView>::empty(),
    {
        let r = Router { routes: Vec::new() };
        assert(r@ =~= Seq::<RouteView>::empty());
        r
    }

    /// The routes of the table, in the order in which they were finished.
    pub fn routes(&self) -> (r: &Vec<SerializedRoute>)
        ensures
            views(r@) == self@,
    {
        &self.routes
    }

    /// Appends `route` to the table.
    pub fn store_route(&mut self, route: SerializedRoute)
        ensures
            final(self)@ == old(self)@.push(route@),
    {
        proof {
            lemma_views_push(self.routes@, route);
        }
        self.routes.push(route);
    }

    /// A builder for routes and groups named `name`.
    pub fn name(&mut self, name: &str) -> (r: Builder<'_>)
        ensures
            optional_text(r.name) == Some(name@),
            r.path is None,
            r.middleware@ == Seq::<String>::empty(),
            *r.router == *old(self),
            *final(self) == *final(r.router),
    {
        Builder { path: None, router: self, middleware: Vec::new(), name: Some(name.to_owned()) }
    }

    /// A builder for routes and groups behind the path prefix `path`.
    pub fn path(&mut self, path: &str) -> (r: Builder<'_>)
        ensures
            optional_text(r.path) == Some(path@),
            r.name is None,
            r.middleware@ == Seq::<String>::empty(),
            *r.router == *old(self),
            *final(self) == *final(r.router),
    {
        Builder { name: None, router: self, middleware: Vec::new(), path: Some(path.to_owned()) }
    }

    /// A builder for routes and groups behind the path prefix `prefix`.
    pub fn prefix(&mut self, prefix: &str) -> (r: Builder<'_>)
        ensures
            optional_text(r.path) == Some(prefix@),
            r.name is None,
            r.middleware@ == Seq::<String>::empty(),
            *r.router == *old(self),
            *final(self) == *final(r.router),
    {
        Builder { name: None, router: self, middleware: Vec::new(), path: Some(prefix.to_owned()) }
    }

    /// A builder for routes and groups wrapped by the named middleware.
    pub fn middleware<M: OneOrMultiple>(&mut self, middleware: M) -> (r: Builder<'_>)
        ensures
            strings(r.middleware@) == middleware.names(),
            r.name is None,
            r.path is None,
            *r.router == *old(self),
            *final(self) == *final(r.router),
    {
        Builder { path: None, name: None, router: self, middleware: middleware.get() }
    }

    /// Begins a group of the routes that `group` registers on a router of
    /// its own.
    pub fn group<F: FnOnce(Router) -> Router>(&mut self, group: F) -> (r: RouteGroup<'_>)
        requires
            forall|fresh: Router| fresh@.len() == 0 ==> #[trigger] group.requires((fresh,)),
        ensures
            exists|fresh: Router| fresh@.len() == 0 && #[trigger] group.ensures((fresh,), r.inner),
            r.group.name is None,
            r.group.prefix is None,
            r.group.middleware@ == Seq::<String>::empty(),
            *r.router == *old(self),
            *final(self) == *final(r.router),
    {
        let fresh = Router::new();
        let ghost given = fresh;
        let inner = group(fresh);
        let r = RouteGroup {
            router: self,
            group: SerializedRouteGroup { name: None, prefix: None, middleware: Vec::new() },
            inner,
        };
        assert(given@.len() == 0 && group.ensures((given,), r.inner));
        r
    }

    /// Begins a resource at `path` whose actions `callable` holds. The
    /// resource is named by the last part of `path` that is not empty, which
    /// there must be.
    pub fn resource(&mut self, path: &str, callable: Callable) -> (r: Resource<'_>)
        requires
            last_segment(path@, '/') is Some,
        ensures
            r.resource.name@ == last_segment(path@, '/')->Some_0,
            r.resource.path@ == path@,
            r.resource.middleware@ == Seq::<String>::empty(),
            r.resource.methods@ == all_actions(),
            r.resource.callable@ == callable@,
            *r.router == *old(self),
            *final(self) == *final(r.router),
    {
        Resource::new(self, path, callable)
    }

    /// Begins a resource that renders no forms: one without the actions
    /// `create` and `edit`.
    pub fn api_resource(&mut self, path: &str, callable: Callable) -> (r: Resource<'_>)
        requires
            last_segment(path@, '/') is Some,
        ensures
            r.resource.name@ == last_segment(path@, '/')->Some_0,
            r.resource.path@ == path@,
            r.resource.middleware@ == Seq::<String>::empty(),
            r.resource.methods@ == api_actions(),
            r.resource.callable@ == callable@,
            *r.router == *old(self),
            *final(self) == *final(r.router),
    {
        Resource::new(self, path, callable).api()
    }

    /// The first route that names a middleware which is not registered,
    /// by its path, and that name; none where every name is registered.
    pub fn first_unregistered(&self, middleware: &Registry) -> (r: Option<(String, String)>)
        ensures
            r is None <==> resolved(self@, middleware@),
            r is Some ==> reports(self@, middleware@, r->Some_0.0@, r->Some_0.1@),
    {
        let mut i: usize = 0;
        while i < self.routes.len()
            invariant
                i <= self.routes@.len(),
                forall|a: int, b: int|
                    0 <= a < i && 0 <= b < self@[a].middleware.len() ==> middleware@.contains_key(
                        #[trigger] self@[a].middleware[b],
                    ),
            decreases self.routes@.len() - i,
        {
            let route = &self.routes[i];
            assert(self@[i as int] == route@);
            let mut j: usize = 0;
            while j < route.middleware.len()
                invariant
                    j <= route.middleware@.len(),
                    i < self.routes@.len(),
                    self@[i as int] == route@,
                    forall|a: int, b: int|
                        0 <= a < i && 0 <= b < self@[a].middleware.len()
                            ==> middleware@.contains_key(#[trigger] self@[a].middleware[b]),
                    forall|b: int|
                        0 <= b < j ==> middleware@.contains_key(
                            #[trigger] self@[i as int].middleware[b],
                        ),
                decreases route.middleware@.len() - j,
            {
                assert(route@.middleware[j as int] == route.middleware@[j as int]@);
                if !middleware.contains_key(route.middleware[j].as_str()) {
                    let found = (route.path.clone(), route.middleware[j].clone());
                    assert(found.1@ == self@[i as int].middleware[j as int]);
                    assert(first_unregistered_at(self@, middleware@, i as int, j as int));
                    return Some(found);
                }
                j += 1;
            }
            i += 1;
        }
        None
    }

    /// Compiles the routes of the table into `blueprint`, in their order. A
    /// route without middleware joins the routes of the blueprint; one with
    /// middleware is nested in a scope of its own, so that its middleware
    /// wrap that route only. Every middleware that a route names must be
    /// registered in `middleware`.
    pub fn register(self, blueprint: &mut Blueprint, middleware: &Registry)
        requires
            resolved(self@, middleware@),
        ensures
            final(blueprint)@ == compiled(
                old(blueprint)@,
                self@,
                middleware@,
                self@.len() as int,
            ),
    {
        self.compile_into(blueprint, middleware);
    }

    /// Compiles the routes of the table into `blueprint`, as `register`
    /// does, and keeps the table.
    pub fn compile_into(&self, blueprint: &mut Blueprint, middleware: &Registry)
        requires
            resolved(self@, middleware@),
        ensures
            final(blueprint)@ == compiled(
                old(blueprint)@,
                self@,
                middleware@,
                self@.len() as int,
            ),
    {
        let mut i: usize = 0;
        while i < self.routes.len()
            invariant
                i <= self.routes@.len(),
                resolved(self@, middleware@),
                blueprint@ == compiled(old(blueprint)@, self@, middleware@, i as int),
            decreases self.routes@.len() - i,
        {
            let route = &self.routes[i];
            assert(self@[i as int] == route@);
            let registered_route = RegisteredRoute {
                path: route.path.clone(),
                method: route.method,
                request_handler: route.request_handler.clone(),
                error_handler: clone_optional_callable(&route.error_handler),
            };
            assert(registered_route@ == registered(route@));
            if route.middleware.len() == 0 {
                blueprint.route(registered_route);
            } else {
                let mut nested = Blueprint::new();
                nested.route(registered_route);
                let mut j: usize = 0;
                assert(nested@.middlewares =~= wrappers(route@.middleware, middleware@).take(0));
                while j < route.middleware.len()
                    invariant
                        j <= route.middleware@.len(),
                        i < self.routes@.len(),
                        self@[i as int] == route@,
                        resolved(self@, middleware@),
                        nested@.constructors == Seq::<ConstructorView>::empty(),
                        nested@.routes == seq![registered(route@)],
                        nested@.nested == Seq::<BlueprintView>::empty(),
                        nested@.middlewares == wrappers(route@.middleware, middleware@).take(
                            j as int,
                        ),
                    decreases route.middleware@.len() - j,
                {
                    let name = &route.middleware[j];
                    assert(route@.middleware[j as int] == name@);
                    assert(middleware@.contains_key(self@[i as int].middleware[j as int]));
                    match middleware.get(name.as_str()) {
                        Some(callable) => {
                            let ghost before = nested@;
                            nested.wrap(callable.clone());
                            assert(nested@.middlewares =~= wrappers(
                                route@.middleware,
                                middleware@,
                            ).take(j + 1));
                        },
                        None => {},
                    }
                    j += 1;
                }
                assert(wrappers(route@.middleware, middleware@).take(j as int) =~= wrappers(
                    route@.middleware,
                    middleware@,
                ));
                assert(nested@ == scoped(route@, middleware@));
                blueprint.nest(nested);
            }
            i += 1;
        }
    }

    fn begin(&mut self, method: Method, path: &str, callable: Callable) -> (r: Route<'_>)
        ensures
            r.route@ == (RouteView {
                path: path@,
                method,
                request_handler: callable@,
                ..RouteView::initial()
            }),
            *r.router == *old(self),
            *final(self) == *final(r.router),
    {
        let mut route = SerializedRoute::default();
        route.path = path.to_owned();
        route.method = method;
        route.request_handler = callable;
        Route { router: self, route }
    }

    /// Begins a GET route at `path`, handled by `callable`.
    pub fn get(&mut self, path: &str, callable: Callable) -> (r: Route<'_>)
        ensures
            r.route@ == (RouteView {
                path: path@,
                method: Method::Get,
                request_handler: callable@,
                ..RouteView::initial()
            }),
            *r.router == *old(self),
            *final(self) == *final(r.router),
    {
        self.begin(Method::Get, path, callable)
    }

    /// Begins a PUT route at `path`, handled by `callable`.
    pub fn put(&mut self, path: &str, callable: Callable) -> (r: Route<'_>)
        ensures
            r.route@ == (RouteView {
                path: path@,
                method: Method::Put,
                request_handler: callable@,
                ..RouteView::initial()
            }),
            *r.router == *old(self),
            *final(self) == *final(r.router),
    {
        self.begin(Method::Put, path, callable)
    }

    /// Begins a POST route at `path`, handled by `callable`.
    pub fn post(&mut self, path: &str, callable: Callable) -> (r: Route<'_>)
        ensures
            r.route@ == (RouteView {
                path: path@,
                method: Method::Post,
                request_handler: callable@,
                ..RouteView::initial()
            }),
            *r.router == *old(self),
            *final(self) == *final(r.router),
    {
        self.begin(Method::Post, path, callable)
    }

    /// Begins a HEAD route at `path`, handled by `callable`.
    pub fn head(&mut self, path: &str, callable: Callable) -> (r: Route<'_>)
        ensures
            r.route@ == (RouteView {
                path: path@,
                method: Method::Head,
                request_handler: callable@,
                ..RouteView::initial()
            }),
            *r.router == *old(self),
            *final(self) == *final(r.router),
    {
        self.begin(Method::Head, path, callable)
    }

    /// Begins a PATCH route at `path`, handled by `callable`.
    pub fn patch(&mut self, path: &str, callable: Callable) -> (r: Route<'_>)
        ensures
            r.route@ == (RouteView {
                path: path@,
                method: Method::Patch,
                request_handler: callable@,
                ..RouteView::initial()
            }),
            *r.router == *old(self),
            *final(self) == *final(r.router),
    {
        self.begin(Method::Patch, path, callable)
    }

    /// Begins a DELETE route at `path`, handled by `callable`.
    pub fn delete(&mut self, path: &str, callable: Callable) -> (r: Route<'_>)
        ensures
            r.route@ == (RouteView {
                path: path@,
                method: Method::Delete,
                request_handler: callable@,
                ..RouteView::initial()
            }),
            *r.router == *old(self),
            *final(self) == *final(r.router),
    {
        self.begin(Method::Delete, path, callable)
    }

    /// Begins a OPTIONS route at `path`, handled by `callable`.
    pub fn options(&mut self, path: &str, callable: Callable) -> (r: Route<'_>)
        ensures
            r.route@ == (RouteView {
                path: path@,
                method: Method::Options,
                request_handler: callable@,
                ..RouteView::initial()
            }),
            *r.router == *old(self),
            *final(self) == *final(r.router),
    {
        self.begin(Method::Options, path, callable)
    }
}

} // verus!
