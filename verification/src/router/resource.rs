//! Resources: up to seven conventional routes from one path and one
//! handler.

use crate::blueprint::{Callable, CallableView};
use crate::http::Method;
use crate::inflection::singular_of;
use crate::router::route::{RouteView, SerializedRoute};
use crate::router::{OneOrMultiple, Router};
use crate::text::{
    clone_list, joined, joined3, last_segment, last_segment_of, str_eq, strings, without,
};
use vstd::prelude::*;

verus! {

/// One of the seven conventional actions of a resource.
#[derive(Debug, Clone, Copy, PartialEq, Eq, Structural)]
pub enum ResourceMethod {
    Index,
    Create,
    Store,
    Show,
    Edit,
    Update,
    Destroy,
}

impl ResourceMethod {
    /// The name of the action, which ends the name of its route and the path
    /// of its handler.
    pub open spec fn label(self) -> Seq<char> {
        match self {
            ResourceMethod::Index => "index"@,
            ResourceMethod::Create => "create"@,
            ResourceMethod::Store => "store"@,
            ResourceMethod::Show => "show"@,
            ResourceMethod::Edit => "edit"@,
            ResourceMethod::Update => "update"@,
            ResourceMethod::Destroy => "destroy"@,
        }
    }

    /// The request method of the action's route.
    pub open spec fn http_method(self) -> Method {
        match self {
            ResourceMethod::Store => Method::Post,
            ResourceMethod::Update => Method::Put,
            ResourceMethod::Destroy => Method::Delete,
            _ => Method::Get,
        }
    }

    /// The path of the action's route, for a resource at `path` whose
    /// singular name is `singular`.
    pub open spec fn path_for(self, path: Seq<char>, singular: Seq<char>) -> Seq<char> {
        match self {
            ResourceMethod::Create => path + "/create"@,
            ResourceMethod::Index | ResourceMethod::Store => path,
            ResourceMethod::Edit => path + "/:"@ + singular + "/edit"@,
            _ => path + "/:"@ + singular,
        }
    }

    /// The route of the action, for a resource named `name` at `path` whose
    /// singular name is `singular` and whose actions `callable` holds.
    pub open spec fn route(
        self,
        path: Seq<char>,
        name: Seq<char>,
        singular: Seq<char>,
        callable: CallableView,
    ) -> RouteView {
        RouteView {
            path: self.path_for(path, singular),
            method: self.http_method(),
            name: Some(name + "."@ + self.label()),
            middleware: Seq::empty(),
            request_handler: CallableView { path: callable.path + "::"@ + self.label(), ..callable },
            error_handler: None,
        }
    }

    /// The name of the action.
    pub fn as_str(&self) -> (r: &'static str)
        ensures
            r@ == self.label(),
    {
        match self {
            ResourceMethod::Index => "index",
            ResourceMethod::Create => "create",
            ResourceMethod::Store => "store",
            ResourceMethod::Show => "show",
            ResourceMethod::Edit => "edit",
            ResourceMethod::Update => "update",
            ResourceMethod::Destroy => "destroy",
        }
    }

    /// The action named `name`, if there is one.
    pub fn from_name(name: &str) -> (r: Option<ResourceMethod>)
        ensures
            match r {
                Some(method) => method.label() == name@,
                None => forall|method: ResourceMethod| #[trigger] method.label() != name@,
            },
    {
        if str_eq(name, "edit") {
            Some(ResourceMethod::Edit)
        } else if str_eq(name, "show") {
            Some(ResourceMethod::Show)
        } else if str_eq(name, "index") {
            Some(ResourceMethod::Index)
        } else if str_eq(name, "store") {
            Some(ResourceMethod::Store)
        } else if str_eq(name, "update") {
            Some(ResourceMethod::Update)
        } else if str_eq(name, "create") {
            Some(ResourceMethod::Create)
        } else if str_eq(name, "destroy") {
            Some(ResourceMethod::Destroy)
        } else {
            None
        }
    }

    /// The route of the action, for a resource named `name` at `path` whose
    /// singular name is `singular` and whose actions `callable` holds.
    pub fn route_for(&self, path: &str, name: &str, singular: &str, callable: &Callable) -> (r:
        SerializedRoute)
        ensures
            r@ == self.route(path@, name@, singular@, callable@),
    {
        let route_path = match self {
            ResourceMethod::Create => joined(path, "/create"),
            ResourceMethod::Index | ResourceMethod::Store => path.to_owned(),
            ResourceMethod::Edit => {
                let head = joined3(path, "/:", singular);
                joined(head.as_str(), "/edit")
            },
            ResourceMethod::Show | ResourceMethod::Update | ResourceMethod::Destroy => joined3(
                path,
                "/:",
                singular,
            ),
        };
        let method = match self {
            ResourceMethod::Store => Method::Post,
            ResourceMethod::Update => Method::Put,
            ResourceMethod::Destroy => Method::Delete,
            ResourceMethod::Index | ResourceMethod::Create | ResourceMethod::Show
            | ResourceMethod::Edit => Method::Get,
        };
        let r = SerializedRoute {
            path: route_path,
            method,
            error_handler: None,
            middleware: Vec::new(),
            name: Some(joined3(name, ".", self.as_str())),
            request_handler: Callable {
                path: joined3(callable.path.as_str(), "::", self.as_str()),
                registered_at: callable.registered_at.clone(),
                file: callable.file.clone(),
                line: callable.line,
                column: callable.column,
            },
        };
        assert(r@.middleware =~= Seq::<Seq<char>>::empty());
        r
    }
}

/// One action or several, as `only` and `except` take them.
pub trait Methods: Sized {
    /// Whether the value names actions only.
    spec fn accepted(&self) -> bool;

    /// The actions that the value stands for.
    spec fn actions(&self) -> Seq<ResourceMethod>;

    /// The actions as a list.
    fn get(self) -> (r: Vec<ResourceMethod>)
        requires
            self.accepted(),
        ensures
            r@ == self.actions(),
    ;
}

impl Methods for ResourceMethod {
    open spec fn accepted(&self) -> bool {
        true
    }

    open spec fn actions(&self) -> Seq<ResourceMethod> {
        seq![*self]
    }

    fn get(self) -> (r: Vec<ResourceMethod>) {
        let mut r: Vec<ResourceMethod> = Vec::new();
        r.push(self);
        assert(r@ =~= seq![self]);
        r
    }
}

impl Methods for Vec<ResourceMethod> {
    open spec fn accepted(&self) -> bool {
        true
    }

    open spec fn actions(&self) -> Seq<ResourceMethod> {
        self@
    }

    fn get(self) -> (r: Vec<ResourceMethod>) {
        self
    }
}

/// The action that `name` names; arbitrary where it names none.
pub open spec fn action_named(name: Seq<char>) -> ResourceMethod {
    choose|method: ResourceMethod| method.label() == name
}

/// Whether `name` names an action.
pub open spec fn names_action(name: Seq<char>) -> bool {
    exists|method: ResourceMethod| method.label() == name
}

/// No two actions share a name.
pub proof fn lemma_labels_differ(a: ResourceMethod, b: ResourceMethod)
    requires
        a.label() == b.label(),
    ensures
        a == b,
{
    reveal_strlit("index");
    reveal_strlit("create");
    reveal_strlit("store");
    reveal_strlit("show");
    reveal_strlit("edit");
    reveal_strlit("update");
    reveal_strlit("destroy");
    assert("index"@.len() == 5 && "index"@[0] == 'i');
    assert("create"@.len() == 6 && "create"@[0] == 'c');
    assert("store"@.len() == 5 && "store"@[0] == 's');
    assert("show"@.len() == 4 && "show"@[0] == 's');
    assert("edit"@.len() == 4 && "edit"@[0] == 'e');
    assert("update"@.len() == 6 && "update"@[0] == 'u');
    assert("destroy"@.len() == 7);
    assert(a.label().len() == b.label().len());
    assert(a.label()[0] == b.label()[0]);
}

impl Methods for Vec<&str> {
    open spec fn accepted(&self) -> bool {
        forall|i: int| 0 <= i < self@.len() ==> names_action(#[trigger] self@[i]@)
    }

    open spec fn actions(&self) -> Seq<ResourceMethod> {
        Seq::new(self@.len(), |i: int| action_named(self@[i]@))
    }

    fn get(self) -> (r: Vec<ResourceMethod>) {
        let mut r: Vec<ResourceMethod> = Vec::new();
        let mut i: usize = 0;
        while i < self.len()
            invariant
                i <= self@.len(),
                self.accepted(),
                r@.len() == i,
                forall|j: int| 0 <= j < i ==> #[trigger] r@[j] == action_named(self@[j]@),
            decreases self@.len() - i,
        {
            assert(names_action(self@[i as int]@));
            match ResourceMethod::from_name(self[i]) {
                Some(method) => {
                    proof {
                        lemma_labels_differ(method, action_named(self@[i as int]@));
                    }
                    r.push(method);
                },
                None => {
                    assert(false);
                },
            }
            i += 1;
        }
        assert(r@ =~= self.actions());
        r
    }
}

/// A resource as the router keeps it.
#[derive(Debug)]
pub struct SerializedResource {
    pub name: String,
    pub path: String,
    pub middleware: Vec<String>,
    pub methods: Vec<ResourceMethod>,
    pub callable: Callable,
}

/// The seven actions, in the order in which their routes are registered.
pub open spec fn all_actions() -> Seq<ResourceMethod> {
    seq![
        ResourceMethod::Index,
        ResourceMethod::Create,
        ResourceMethod::Store,
        ResourceMethod::Show,
        ResourceMethod::Edit,
        ResourceMethod::Update,
        ResourceMethod::Destroy,
    ]
}

/// The actions of a resource that renders no forms: all but `create` and
/// `edit`.
pub open spec fn api_actions() -> Seq<ResourceMethod> {
    seq![
        ResourceMethod::Index,
        ResourceMethod::Store,
        ResourceMethod::Show,
        ResourceMethod::Update,
        ResourceMethod::Destroy,
    ]
}

impl SerializedResource {
    /// The routes that the resource expands into when its singular name is
    /// `singular`: one for each of its actions, in their order, each wrapped
    /// by the middleware of the resource.
    pub open spec fn expanded(&self, singular: Seq<char>) -> Seq<RouteView> {
        Seq::new(
            self.methods@.len(),
            |i: int|
                RouteView {
                    middleware: strings(self.middleware@),
                    ..self.methods@[i].route(self.path@, self.name@, singular, self.callable@)
                },
        )
    }
}

/// A resource that is being defined. Its routes join the table of its
/// router when it is finished.
pub struct Resource<'r> {
    pub router: &'r mut Router,
    pub resource: SerializedResource,
}

impl<'r> Resource<'r> {
    /// Begins a resource at `path` whose actions `callable` holds. The
    /// resource is named by the last part of `path` that is not empty, which
    /// there must be.
    pub fn new(router: &'r mut Router, path: &str, callable: Callable) -> (r: Resource<'r>)
        requires
            last_segment(path@, '/') is Some,
        ensures
            r.resource.name@ == last_segment(path@, '/')->Some_0,
            r.resource.path@ == path@,
            r.resource.middleware@ == Seq::<String>::empty(),
            r.resource.methods@ == all_actions(),
            r.resource.callable@ == callable@,
            *r.router == *old(router),
            *final(router) == *final(r.router),
    {
        let name = match last_segment_of(path, '/') {
            Some(name) => name,
            None => String::new(),
        };
        let mut methods: Vec<ResourceMethod> = Vec::new();
        methods.push(ResourceMethod::Index);
        methods.push(ResourceMethod::Create);
        methods.push(ResourceMethod::Store);
        methods.push(ResourceMethod::Show);
        methods.push(ResourceMethod::Edit);
        methods.push(ResourceMethod::Update);
        methods.push(ResourceMethod::Destroy);
        assert(methods@ =~= all_actions());
        Resource {
            router,
            resource: SerializedResource {
                callable,
                path: path.to_owned(),
                middleware: Vec::new(),
                name,
                methods,
            },
        }
    }

    /// Narrows the resource to the actions that render no forms.
    pub fn api(self) -> (r: Resource<'r>)
        ensures
            r.resource.methods@ == api_actions(),
            r.resource.name == self.resource.name,
            r.resource.path == self.resource.path,
            r.resource.middleware == self.resource.middleware,
            r.resource.callable == self.resource.callable,
            r.router == self.router,
    {
        let mut methods: Vec<ResourceMethod> = Vec::new();
        methods.push(ResourceMethod::Index);
        methods.push(ResourceMethod::Store);
        methods.push(ResourceMethod::Show);
        methods.push(ResourceMethod::Update);
        methods.push(ResourceMethod::Destroy);
        assert(methods@ =~= api_actions());
        let mut r = self;
        r.resource.methods = methods;
        r
    }

    /// Narrows the resource to the given actions.
    pub fn only<M: Methods>(&mut self, methods: M) -> (r: &mut Self)
        requires
            methods.accepted(),
        ensures
            r.resource.methods@ == methods.actions(),
            r.resource.name == old(self).resource.name,
            r.resource.path == old(self).resource.path,
            r.resource.middleware == old(self).resource.middleware,
            r.resource.callable == old(self).resource.callable,
            r.router == old(self).router,
            *final(self) == *final(r),
    {
        self.resource.methods = methods.get();
        self
    }

    /// Strikes the given actions from those of the resource.
    pub fn except<M: Methods>(&mut self, methods: M) -> (r: &mut Self)
        requires
            methods.accepted(),
        ensures
            r.resource.methods@ == without(old(self).resource.methods@, methods.actions()),
            r.resource.name == old(self).resource.name,
            r.resource.path == old(self).resource.path,
            r.resource.middleware == old(self).resource.middleware,
            r.resource.callable == old(self).resource.callable,
            r.router == old(self).router,
            *final(self) == *final(r),
    {
        let gone = methods.get();
        let mut kept: Vec<ResourceMethod> = Vec::new();
        let ghost all = self.resource.methods@;
        let mut i: usize = 0;
        assert(all.take(0) =~= Seq::<ResourceMethod>::empty());
        while i < self.resource.methods.len()
            invariant
                i <= all.len(),
                all == self.resource.methods@,
                kept@ == without(all.take(i as int), gone@),
            decreases all.len() - i,
        {
            let method = self.resource.methods[i];
            proof {
                assert(all.take(i + 1).drop_last() =~= all.take(i as int));
                assert(all.take(i + 1).last() == method);
            }
            let mut found = false;
            let mut j: usize = 0;
            while j < gone.len()
                invariant
                    j <= gone@.len(),
                    found == gone@.take(j as int).contains(method),
                decreases gone@.len() - j,
            {
                proof {
                    let before = gone@.take(j as int);
                    let after = gone@.take(j + 1);
                    assert(after =~= before.push(gone@[j as int]));
                    if before.contains(method) {
                        let k = choose|k: int| 0 <= k < before.len() && before[k] == method;
                        assert(after[k] == method);
                    }
                    if after.contains(method) {
                        let k = choose|k: int| 0 <= k < after.len() && after[k] == method;
                        if k < j {
                            assert(before[k] == method);
                        }
                    }
                    assert(after[j as int] == gone@[j as int]);
                }
                if gone[j] == method {
                    found = true;
                }
                j += 1;
            }
            assert(gone@.take(j as int) =~= gone@);
            if !found {
                kept.push(method);
            }
            i += 1;
        }
        assert(all.take(i as int) =~= all);
        self.resource.methods = kept;
        self
    }

    /// Sets the middleware that wrap each route of the resource, by their
    /// names.
    pub fn middleware<M: OneOrMultiple>(&mut self, middleware: M) -> (r: &mut Self)
        ensures
            strings(r.resource.middleware@) == middleware.names(),
            r.resource.name == old(self).resource.name,
            r.resource.path == old(self).resource.path,
            r.resource.methods == old(self).resource.methods,
            r.resource.callable == old(self).resource.callable,
            r.router == old(self).router,
            *final(self) == *final(r),
    {
        self.resource.middleware = middleware.get();
        self
    }

    /// Sets the name of the resource, which begins the names of its routes
    /// and gives the parameter of their paths.
    pub fn name(&mut self, name: &str) -> (r: &mut Self)
        ensures
            r.resource.name@ == name@,
            r.resource.path == old(self).resource.path,
            r.resource.middleware == old(self).resource.middleware,
            r.resource.methods == old(self).resource.methods,
            r.resource.callable == old(self).resource.callable,
            r.router == old(self).router,
            *final(self) == *final(r),
    {
        self.resource.name = name.to_owned();
        self
    }

    /// Finishes the resource with `singular` as the singular form of its
    /// name: the routes that it expands into are appended to the table of
    /// its router.
    pub fn finish_with(&mut self, singular: &str)
        ensures
            final(self).router@ == old(self).router@ + old(self).resource.expanded(singular@),
            final(self).resource == old(self).resource,
            *final(final(self).router) == *final(old(self).router),
    {
        let ghost all = self.resource.expanded(singular@);
        let ghost start = self.router@;
        let mut i: usize = 0;
        assert(start + all.take(0) =~= start);
        while i < self.resource.methods.len()
            invariant
                i <= self.resource.methods@.len(),
                self.resource == old(self).resource,
                all == self.resource.expanded(singular@),
                all.len() == self.resource.methods@.len(),
                self.router@ == start + all.take(i as int),
                *final(self.router) == *final(old(self).router),
            decreases self.resource.methods@.len() - i,
        {
            let mut route = self.resource.methods[i].route_for(
                self.resource.path.as_str(),
                self.resource.name.as_str(),
                singular,
                &self.resource.callable,
            );
            route.middleware = clone_list(&self.resource.middleware);
            assert(route@ == all[i as int]);
            self.router.store_route(route);
            assert(start + all.take(i + 1) =~= (start + all.take(i as int)).push(all[i as int]));
            i += 1;
        }
        assert(all.take(i as int) =~= all);
    }

    /// Finishes the resource: the routes that it expands into are appended
    /// to the table of its router. The parameter of their paths is the
    /// singular form of the resource's name by the rules of English.
    pub fn finish(&mut self)
        ensures
            exists|singular: Seq<char>|
                final(self).router@ == old(self).router@ + #[trigger] old(self).resource.expanded(singular),
            final(self).resource == old(self).resource,
            *final(final(self).router) == *final(old(self).router),
    {
        let singular = singular_of(self.resource.name.as_str());
        self.finish_with(singular.as_str());
    }
}

} // verus!
