//! The builder that carries a name, a path prefix and middleware over to the
//! routes and groups that are begun from it.

use crate::blueprint::Callable;
use crate::http::Method;
use crate::router::group::RouteGroup;
use crate::router::route::{Route, RouteView, SerializedRoute};
use crate::router::{OneOrMultiple, Router};
use crate::text::{clone_list, clone_optional_text, joined, optional_text, strings};
use vstd::prelude::*;

verus! {

/// What routes and groups begun from here start with.
pub struct Builder<'r> {
    pub router: &'r mut Router,
    pub path: Option<String>,
    pub name: Option<String>,
    pub middleware: Vec<String>,
}

/// `path` behind the prefix, where there is one.
pub open spec fn prefixed(prefix: Option<Seq<char>>, path: Seq<char>) -> Seq<char> {
    match prefix {
        Some(p) => p + path,
        None => path,
    }
}

impl<'r> Builder<'r> {
    /// The route that this builder begins for `method` at `path`.
    pub open spec fn route_at(&self, method: Method, path: Seq<char>, callable: Callable) -> RouteView {
        RouteView {
            name: optional_text(self.name),
            method,
            middleware: strings(self.middleware@),
            path: prefixed(optional_text(self.path), path),
            request_handler: callable@,
            error_handler: None,
        }
    }

    /// Sets the name that routes begun from here start with.
    pub fn name(&mut self, name: &str) -> (r: &mut Self)
        ensures
            optional_text(r.name) == Some(name@),
            r.path == old(self).path,
            r.middleware == old(self).middleware,
            r.router == old(self).router,
            *final(self) == *final(r),
    {
        self.name = Some(name.to_owned());
        self
    }

    /// Sets the prefix of the paths of routes begun from here.
    pub fn path(&mut self, path: &str) -> (r: &mut Self)
        ensures
            optional_text(r.path) == Some(path@),
            r.name == old(self).name,
            r.middleware == old(self).middleware,
            r.router == old(self).router,
            *final(self) == *final(r),
    {
        self.path = Some(path.to_owned());
        self
    }

    /// Sets the middleware of routes begun from here, by their names.
    pub fn middleware<M: OneOrMultiple>(&mut self, middleware: M) -> (r: &mut Self)
        ensures
            strings(r.middleware@) == middleware.names(),
            r.name == old(self).name,
            r.path == old(self).path,
            r.router == old(self).router,
            *final(self) == *final(r),
    {
        self.middleware = middleware.get();
        self
    }

    /// Sets the prefix of the paths of routes begun from here.
    pub fn prefix(&mut self, prefix: &str) -> (r: &mut Self)
        ensures
            optional_text(r.path) == Some(prefix@),
            r.name == old(self).name,
            r.middleware == old(self).middleware,
            r.router == old(self).router,
            *final(self) == *final(r),
    {
        self.path = Some(prefix.to_owned());
        self
    }

    /// Begins a group of the routes that `group` registers on a router of
    /// its own. The group takes the name and the prefix of this builder.
    pub fn group<F: FnOnce(Router) -> Router>(&mut self, group: F) -> (r: RouteGroup<'_>)
        requires
            forall|fresh: Router| fresh@.len() == 0 ==> #[trigger] group.requires((fresh,)),
        ensures
            exists|fresh: Router| fresh@.len() == 0 && #[trigger] group.ensures((fresh,), r.inner),
            optional_text(r.group.name) == optional_text(old(self).name),
            optional_text(r.group.prefix) == optional_text(old(self).path),
            r.group.middleware@ == Seq::<String>::empty(),
            *r.router == *old(self).router,
            *final(self).router == *final(r.router),
            *final(final(self).router) == *final(old(self).router),
            final(self).name == old(self).name,
            final(self).path == old(self).path,
            final(self).middleware == old(self).middleware,
    {
        let name = clone_optional_text(&self.name);
        let path = clone_optional_text(&self.path);
        let ghost routes = group;
        let mut group = self.router.group(group);
        let ghost given = choose|fresh: Router|
            fresh@.len() == 0 && #[trigger] routes.ensures((fresh,), group.inner);
        group.group.name = name;
        group.group.prefix = path;
        assert(given@.len() == 0 && routes.ensures((given,), group.inner));
        group
    }

    fn begin(&mut self, method: Method, path: &str, callable: Callable) -> (r: Route<'_>)
        ensures
            r.route@ == old(self).route_at(method, path@, callable),
            *r.router == *old(self).router,
            *final(self).router == *final(r.router),
            *final(final(self).router) == *final(old(self).router),
            final(self).name == old(self).name,
            final(self).path == old(self).path,
            final(self).middleware == old(self).middleware,
    {
        let full = match &self.path {
            Some(prefix) => joined(prefix.as_str(), path),
            None => path.to_owned(),
        };
        let route = SerializedRoute {
            name: clone_optional_text(&self.name),
            method,
            middleware: clone_list(&self.middleware),
            path: full,
            request_handler: callable,
            error_handler: None,
        };
        Route { router: self.router, route }
    }

    /// Begins a GET route at `path` behind the prefix, handled by `callable`.
    pub fn get(&mut self, path: &str, callable: Callable) -> (r: Route<'_>)
        ensures
            r.route@ == old(self).route_at(Method::Get, path@, callable),
            *r.router == *old(self).router,
            *final(self).router == *final(r.router),
            *final(final(self).router) == *final(old(self).router),
            final(self).name == old(self).name,
            final(self).path == old(self).path,
            final(self).middleware == old(self).middleware,
    {
        self.begin(Method::Get, path, callable)
    }

    /// Begins a PUT route at `path` behind the prefix, handled by
    /// `callable`.
    pub fn put(&mut self, path: &str, callable: Callable) -> (r: Route<'_>)
        ensures
            r.route@ == old(self).route_at(Method::Put, path@, callable),
            *r.router == *old(self).router,
            *final(self).router == *final(r.router),
            *final(final(self).router) == *final(old(self).router),
            final(self).name == old(self).name,
            final(self).path == old(self).path,
            final(self).middleware == old(self).middleware,
    {
        self.begin(Method::Put, path, callable)
    }

    /// Begins a POST route at `path` behind the prefix, handled by
    /// `callable`.
    pub fn post(&mut self, path: &str, callable: Callable) -> (r: Route<'_>)
        ensures
            r.route@ == old(self).route_at(Method::Post, path@, callable),
            *r.router == *old(self).router,
            *final(self).router == *final(r.router),
            *final(final(self).router) == *final(old(self).router),
            final(self).name == old(self).name,
            final(self).path == old(self).path,
            final(self).middleware == old(self).middleware,
    {
        self.begin(Method::Post, path, callable)
    }

    /// Begins a HEAD route at `path` behind the prefix, handled by
    /// `callable`.
    pub fn head(&mut self, path: &str, callable: Callable) -> (r: Route<'_>)
        ensures
            r.route@ == old(self).route_at(Method::Head, path@, callable),
            *r.router == *old(self).router,
            *final(self).router == *final(r.router),
            *final(final(self).router) == *final(old(self).router),
            final(self).name == old(self).name,
            final(self).path == old(self).path,
            final(self).middleware == old(self).middleware,
    {
        self.begin(Method::Head, path, callable)
    }

    /// Begins a PATCH route at `path` behind the prefix, handled by
    /// `callable`.
    pub fn patch(&mut self, path: &str, callable: Callable) -> (r: Route<'_>)
        ensures
            r.route@ == old(self).route_at(Method::Patch, path@, callable),
            *r.router == *old(self).router,
            *final(self).router == *final(r.router),
            *final(final(self).router) == *final(old(self).router),
            final(self).name == old(self).name,
            final(self).path == old(self).path,
            final(self).middleware == old(self).middleware,
    {
        self.begin(Method::Patch, path, callable)
    }

    /// Begins a DELETE route at `path` behind the prefix, handled by
    /// `callable`.
    pub fn delete(&mut self, path: &str, callable: Callable) -> (r: Route<'_>)
        ensures
            r.route@ == old(self).route_at(Method::Delete, path@, callable),
            *r.router == *old(self).router,
            *final(self).router == *final(r.router),
            *final(final(self).router) == *final(old(self).router),
            final(self).name == old(self).name,
            final(self).path == old(self).path,
            final(self).middleware == old(self).middleware,
    {
        self.begin(Method::Delete, path, callable)
    }

    /// Begins a OPTIONS route at `path` behind the prefix, handled by
    /// `callable`.
    pub fn options(&mut self, path: &str, callable: Callable) -> (r: Route<'_>)
        ensures
            r.route@ == old(self).route_at(Method::Options, path@, callable),
            *r.router == *old(self).router,
            *final(self).router == *final(r.router),
            *final(final(self).router) == *final(old(self).router),
            final(self).name == old(self).name,
            final(self).path == old(self).path,
            final(self).middleware == old(self).middleware,
    {
        self.begin(Method::Options, path, callable)
    }
}

} // verus!
