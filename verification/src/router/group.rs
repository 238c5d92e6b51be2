//! Groups of routes that share a name prefix, a path prefix and middleware.

use crate::router::route::{RouteView, SerializedRoute};
use crate::router::{OneOrMultiple, Router};
use crate::blueprint::{clone_optional_callable, views};
use crate::text::{clone_optional_text, joined, list_joined, optional_text, strings};
use vstd::prelude::*;

verus! {

/// What the routes of a group share.
#[derive(Debug)]
pub struct SerializedRouteGroup {
    pub name: Option<String>,
    pub prefix: Option<String>,
    pub middleware: Vec<String>,
}

/// A group that is being defined: the routes of `inner` join the table of
/// the router when the group is finished.
pub struct RouteGroup<'r> {
    pub router: &'r mut Router,
    pub group: SerializedRouteGroup,
    pub inner: Router,
}

/// A route of a group as it joins the table: its path stands behind the
/// prefix of the group, its name behind the name of the group, and the
/// middleware of the group come before its own.
pub open spec fn grouped(
    route: RouteView,
    name: Option<Seq<char>>,
    prefix: Option<Seq<char>>,
    middleware: Seq<Seq<char>>,
) -> RouteView {
    RouteView {
        path: match prefix {
            Some(p) => p + route.path,
            None => route.path,
        },
        name: match name {
            Some(n) => match route.name {
                Some(own) => Some(n + own),
                None => Some(n),
            },
            None => route.name,
        },
        middleware: middleware + route.middleware,
        ..route
    }
}

/// The routes of a group as they join the table, in their order.
pub open spec fn grouped_all(
    routes: Seq<RouteView>,
    name: Option<Seq<char>>,
    prefix: Option<Seq<char>>,
    middleware: Seq<Seq<char>>,
) -> Seq<RouteView> {
    Seq::new(routes.len(), |i: int| grouped(routes[i], name, prefix, middleware))
}

impl<'r> RouteGroup<'r> {
    /// Sets the name that the names of the group's routes stand behind.
    pub fn name(&mut self, name: &str) -> (r: &mut Self)
        ensures
            optional_text(r.group.name) == Some(name@),
            r.group.prefix == old(self).group.prefix,
            r.group.middleware == old(self).group.middleware,
            r.inner == old(self).inner,
            r.router == old(self).router,
            *final(self) == *final(r),
    {
        self.group.name = Some(name.to_owned());
        self
    }

    /// Sets the middleware that the group's routes inherit, by their names.
    pub fn middleware<M: OneOrMultiple>(&mut self, middleware: M) -> (r: &mut Self)
        ensures
            strings(r.group.middleware@) == middleware.names(),
            r.group.name == old(self).group.name,
            r.group.prefix == old(self).group.prefix,
            r.inner == old(self).inner,
            r.router == old(self).router,
            *final(self) == *final(r),
    {
        self.group.middleware = middleware.get();
        self
    }

    /// Sets the prefix that the paths of the group's routes stand behind.
    pub fn prefix(&mut self, prefix: &str) -> (r: &mut Self)
        ensures
            optional_text(r.group.prefix) == Some(prefix@),
            r.group.name == old(self).group.name,
            r.group.middleware == old(self).group.middleware,
            r.inner == old(self).inner,
            r.router == old(self).router,
            *final(self) == *final(r),
    {
        self.group.prefix = Some(prefix.to_owned());
        self
    }

    /// Finishes the group: each of its routes is appended to the table of
    /// the router, with what the group shares laid over it, and leaves the
    /// group.
    pub fn finish(&mut self)
        ensures
            final(self).router@ == old(self).router@ + grouped_all(
                old(self).inner@,
                optional_text(old(self).group.name),
                optional_text(old(self).group.prefix),
                strings(old(self).group.middleware@),
            ),
            final(self).inner@ == Seq::<RouteView>::empty(),
            final(self).group == old(self).group,
            *final(final(self).router) == *final(old(self).router),
    {
        let mut inner = Router::new();
        core::mem::swap(&mut self.inner, &mut inner);
        let routes = inner.routes();
        let ghost all = grouped_all(
            inner@,
            optional_text(self.group.name),
            optional_text(self.group.prefix),
            strings(self.group.middleware@),
        );
        let ghost start = self.router@;
        let mut i: usize = 0;
        assert(start + all.take(0) =~= start);
        assert(all.len() == routes@.len());
        while i < routes.len()
            invariant
                i <= routes@.len(),
                all.len() == routes@.len(),
                *final(self.router) == *final(old(self).router),
                self.group == old(self).group,
                self.inner@ == Seq::<RouteView>::empty(),
                views(routes@) == inner@,
                all == grouped_all(
                    inner@,
                    optional_text(self.group.name),
                    optional_text(self.group.prefix),
                    strings(self.group.middleware@),
                ),
                self.router@ == start + all.take(i as int),
            decreases routes@.len() - i,
        {
            let own = &routes[i];
            assert(views(routes@)[i as int] == own@);
            let path = match &self.group.prefix {
                Some(prefix) => joined(prefix.as_str(), own.path.as_str()),
                None => own.path.clone(),
            };
            let name = match &self.group.name {
                Some(name) => match &own.name {
                    Some(route_name) => Some(joined(name.as_str(), route_name.as_str())),
                    None => Some(name.clone()),
                },
                None => clone_optional_text(&own.name),
            };
            let route = SerializedRoute {
                path,
                name,
                method: own.method,
                middleware: list_joined(&self.group.middleware, &own.middleware),
                request_handler: own.request_handler.clone(),
                error_handler: clone_optional_callable(&own.error_handler),
            };
            assert(route@ == all[i as int]);
            self.router.store_route(route);
            assert(start + all.take(i + 1) =~= (start + all.take(i as int)).push(all[i as int]));
            i += 1;
        }
        assert(all.take(i as int) =~= all);
    }
}

} // verus!
