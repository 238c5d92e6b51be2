//! A single route, the builder that names it, and the table of named routes.

use crate::blueprint::{
    clone_optional_callable, optional_callable, views, Callable, CallableView,
};
use crate::http::Method;
use crate::router::{OneOrMultiple, Router};
use crate::string_map::StringMap;
use crate::text::{clone_list, clone_optional_text, optional_text, strings};
use vstd::prelude::*;

verus! {

/// A route as the router keeps it: a path template, a method, an optional
/// name, the names of the middleware that wrap it, the request handler and an
/// optional error handler.
#[derive(Debug)]
pub struct SerializedRoute {
    pub path: String,
    pub method: Method,
    pub name: Option<String>,
    pub middleware: Vec<String>,
    pub request_handler: Callable,
    pub error_handler: Option<Callable>,
}

/// The content of a [`SerializedRoute`].
pub struct RouteView {
    pub path: Seq<char>,
    pub method: Method,
    pub name: Option<Seq<char>>,
    pub middleware: Seq<Seq<char>>,
    pub request_handler: CallableView,
    pub error_handler: Option<CallableView>,
}

impl View for SerializedRoute {
    type V = RouteView;

    open spec fn view(&self) -> RouteView {
        RouteView {
            path: self.path@,
            method: self.method,
            name: optional_text(self.name),
            middleware: strings(self.middleware@),
            request_handler: self.request_handler@,
            error_handler: optional_callable(self.error_handler),
        }
    }
}

impl Clone for SerializedRoute {
    fn clone(&self) -> (r: SerializedRoute)
        ensures
            r@ == self@,
    {
        SerializedRoute {
            path: self.path.clone(),
            name: clone_optional_text(&self.name),
            method: self.method,
            middleware: clone_list(&self.middleware),
            request_handler: self.request_handler.clone(),
            error_handler: clone_optional_callable(&self.error_handler),
        }
    }
}

/// The handler of a route that was given none: a reference to
/// `core::unreachable`.
pub open spec fn placeholder_handler() -> CallableView {
    CallableView {
        path: "core::unreachable"@,
        registered_at: "framework"@,
        file: "src/router/route.rs"@,
        line: 0,
        column: 0,
    }
}

impl RouteView {
    /// The route before anything is set: a GET route at the empty path,
    /// without name, middleware or error handler.
    pub open spec fn initial() -> RouteView {
        RouteView {
            path: Seq::empty(),
            method: Method::Get,
            name: None,
            middleware: Seq::empty(),
            request_handler: placeholder_handler(),
            error_handler: None,
        }
    }
}

impl Default for SerializedRoute {
    fn default() -> (r: SerializedRoute)
        ensures
            r@ == RouteView::initial(),
    {
        let r = SerializedRoute {
            name: None,
            path: String::new(),
            method: Method::Get,
            error_handler: None,
            middleware: Vec::new(),
            request_handler: Callable::new(
                "core::unreachable",
                "framework",
                "src/router/route.rs",
                0,
                0,
            ),
        };
        assert(r@.middleware =~= Seq::<Seq<char>>::empty());
        r
    }
}

/// A route that is being defined. It joins the table of its router when it
/// is finished.
pub struct Route<'r> {
    pub router: &'r mut Router,
    pub route: SerializedRoute,
}

impl<'r> Route<'r> {
    /// Sets the name of the route.
    pub fn name(&mut self, name: &str) -> (r: &mut Self)
        ensures
            r.route@ == (RouteView { name: Some(name@), ..old(self).route@ }),
            r.router == old(self).router,
            *final(self) == *final(r),
    {
        self.route.name = Some(name.to_owned());
        self
    }

    /// Sets the middleware of the route, by their names.
    pub fn middleware<M: OneOrMultiple>(&mut self, middleware: M) -> (r: &mut Self)
        ensures
            r.route@ == (RouteView { middleware: middleware.names(), ..old(self).route@ }),
            r.router == old(self).router,
            *final(self) == *final(r),
    {
        self.route.middleware = middleware.get();
        self
    }

    /// Sets the error handler of the route.
    pub fn error_handler(&mut self, callable: Callable) -> (r: &mut Self)
        ensures
            r.route@ == (RouteView { error_handler: Some(callable@), ..old(self).route@ }),
            r.router == old(self).router,
            *final(self) == *final(r),
    {
        self.route.error_handler = Some(callable);
        self
    }

    /// Finishes the route: a copy of it is appended to the table of its
    /// router.
    pub fn finish(&mut self)
        ensures
            final(self).router@ == old(self).router@.push(old(self).route@),
            final(self).route == old(self).route,
            *final(final(self).router) == *final(old(self).router),
    {
        self.router.store_route(self.route.clone());
    }
}

/// The paths of the routes that have a name, by name.
pub struct NamedRoutes {
    routes: StringMap<String>,
}

/// The paths of the first `n` routes of `routes` that have a name, by name;
/// of two routes with one name the later one stays.
pub open spec fn named_paths(routes: Seq<RouteView>, n: int) -> Map<Seq<char>, Seq<char>>
    decreases n,
{
    if n <= 0 {
        Map::empty()
    } else if routes[n - 1].name is Some {
        named_paths(routes, n - 1).insert(routes[n - 1].name->Some_0, routes[n - 1].path)
    } else {
        named_paths(routes, n - 1)
    }
}

impl View for NamedRoutes {
    type V = Map<Seq<char>, Seq<char>>;

    closed spec fn view(&self) -> Map<Seq<char>, Seq<char>> {
        self.routes@
    }
}

impl NamedRoutes {
    /// The table of the named routes among `routes`.
    pub fn from_routes(routes: &Vec<SerializedRoute>) -> (r: NamedRoutes)
        ensures
            r@ == named_paths(views(routes@), routes@.len() as int),
    {
        let mut named: StringMap<String> = StringMap::new();
        let mut i: usize = 0;
        while i < routes.len()
            invariant
                i <= routes@.len(),
                named@ == named_paths(views(routes@), i as int),
            decreases routes@.len() - i,
        {
            match &routes[i].name {
                Some(name) => {
                    named.insert(name.as_str(), routes[i].path.clone());
                },
                None => {},
            }
            i += 1;
        }
        NamedRoutes { routes: named }
    }

    /// The path of the route named `name`, if there is one.
    pub fn get(&self, name: &str) -> (r: Option<&String>)
        ensures
            match r {
                Some(path) => self@.contains_key(name@) && path@ == self@[name@],
                None => !self@.contains_key(name@),
            },
    {
        self.routes.get(name)
    }

    /// The number of named routes.
    pub fn len(&self) -> (r: usize)
        ensures
            self@.dom().finite(),
            r == self@.dom().len(),
    {
        self.routes.len()
    }
}

} // verus!
