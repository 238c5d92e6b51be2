//! The blueprint: the compiled description of constructors, middleware and
//! routes that the request dispatcher is built from.

use crate::http::Method;
use crate::string_map::StringMap;
use vstd::prelude::*;

verus! {

/// A reference to a function or method: its import path, the package that
/// registered it and the place of the registration.
#[derive(Debug)]
pub struct Callable {
    pub path: String,
    pub registered_at: String,
    pub file: String,
    pub line: u32,
    pub column: u32,
}

/// The content of a [`Callable`].
pub struct CallableView {
    pub path: Seq<char>,
    pub registered_at: Seq<char>,
    pub file: Seq<char>,
    pub line: u32,
    pub column: u32,
}

impl View for Callable {
    type V = CallableView;

    open spec fn view(&self) -> CallableView {
        CallableView {
            path: self.path@,
            registered_at: self.registered_at@,
            file: self.file@,
            line: self.line,
            column: self.column,
        }
    }
}

impl Clone for Callable {
    fn clone(&self) -> (r: Callable)
        ensures
            r@ == self@,
    {
        Callable {
            path: self.path.clone(),
            registered_at: self.registered_at.clone(),
            file: self.file.clone(),
            line: self.line,
            column: self.column,
        }
    }
}

impl Callable {
    /// A reference to `path`, registered by the package `registered_at` at
    /// the given place.
    pub fn new(path: &str, registered_at: &str, file: &str, line: u32, column: u32) -> (r:
        Callable)
        ensures
            r@ == (CallableView {
                path: path@,
                registered_at: registered_at@,
                file: file@,
                line,
                column,
            }),
    {
        Callable {
            path: path.to_owned(),
            registered_at: registered_at.to_owned(),
            file: file.to_owned(),
            line,
            column,
        }
    }
}

/// The content of an optional callable.
pub open spec fn optional_callable(c: Option<Callable>) -> Option<CallableView> {
    match c {
        Some(callable) => Some(callable@),
        None => None,
    }
}

/// A copy of an optional callable.
pub fn clone_optional_callable(c: &Option<Callable>) -> (r: Option<Callable>)
    ensures
        optional_callable(r) == optional_callable(*c),
{
    match c {
        Some(callable) => Some(callable.clone()),
        None => None,
    }
}

/// The middleware that routes can name, by name.
pub type Registry = StringMap<Callable>;

/// How long a constructed value lives.
#[derive(Debug, Clone, Copy, PartialEq, Eq, Structural)]
pub enum Lifecycle {
    Singleton,
    RequestScoped,
    Transient,
}

/// Whether a constructed value may be cloned where it is needed in more
/// than one place.
#[derive(Debug, Clone, Copy, PartialEq, Eq, Structural)]
pub enum CloningStrategy {
    NeverClone,
    CloneIfNecessary,
}

/// A registered constructor.
#[derive(Debug)]
pub struct Constructor {
    pub callable: Callable,
    pub lifecycle: Lifecycle,
    pub cloning: Option<CloningStrategy>,
    pub error_handler: Option<Callable>,
}

/// The content of a [`Constructor`].
pub struct ConstructorView {
    pub callable: CallableView,
    pub lifecycle: Lifecycle,
    pub cloning: Option<CloningStrategy>,
    pub error_handler: Option<CallableView>,
}

impl View for Constructor {
    type V = ConstructorView;

    open spec fn view(&self) -> ConstructorView {
        ConstructorView {
            callable: self.callable@,
            lifecycle: self.lifecycle,
            cloning: self.cloning,
            error_handler: optional_callable(self.error_handler),
        }
    }
}

/// A middleware that wraps what comes after it.
#[derive(Debug)]
pub struct WrappingMiddleware {
    pub middleware: Callable,
    pub error_handler: Option<Callable>,
}

/// The content of a [`WrappingMiddleware`].
pub struct WrappingMiddlewareView {
    pub middleware: CallableView,
    pub error_handler: Option<CallableView>,
}

impl View for WrappingMiddleware {
    type V = WrappingMiddlewareView;

    open spec fn view(&self) -> WrappingMiddlewareView {
        WrappingMiddlewareView {
            middleware: self.middleware@,
            error_handler: optional_callable(self.error_handler),
        }
    }
}

/// A route of the dispatcher's table.
#[derive(Debug)]
pub struct RegisteredRoute {
    pub path: String,
    pub method: Method,
    pub request_handler: Callable,
    pub error_handler: Option<Callable>,
}

/// The content of a [`RegisteredRoute`].
pub struct RegisteredRouteView {
    pub path: Seq<char>,
    pub method: Method,
    pub request_handler: CallableView,
    pub error_handler: Option<CallableView>,
}

impl View for RegisteredRoute {
    type V = RegisteredRouteView;

    open spec fn view(&self) -> RegisteredRouteView {
        RegisteredRouteView {
            path: self.path@,
            method: self.method,
            request_handler: self.request_handler@,
            error_handler: optional_callable(self.error_handler),
        }
    }
}

/// The views of the items of a list.
pub open spec fn views<T: View>(s: Seq<T>) -> Seq<T::V> {
    Seq::new(s.len(), |i: int| s[i]@)
}

/// Appending an item appends its view.
pub proof fn lemma_views_push<T: View>(s: Seq<T>, item: T)
    ensures
        views(s.push(item)) == views(s).push(item@),
{
    assert(views(s.push(item)) =~= views(s).push(item@));
}

/// The compiled description of an application, or of a part of it that is
/// nested in another.
#[derive(Debug)]
pub struct Blueprint {
    pub constructors: Vec<Constructor>,
    pub middlewares: Vec<WrappingMiddleware>,
    pub routes: Vec<RegisteredRoute>,
    pub nested: Vec<Blueprint>,
}

/// The content of a [`Blueprint`].
pub struct BlueprintView {
    pub constructors: Seq<ConstructorView>,
    pub middlewares: Seq<WrappingMiddlewareView>,
    pub routes: Seq<RegisteredRouteView>,
    pub nested: Seq<BlueprintView>,
}

impl View for Blueprint {
    type V = BlueprintView;

    open spec fn view(&self) -> BlueprintView
        decreases self,
    {
        BlueprintView {
            constructors: views(self.constructors@),
            middlewares: views(self.middlewares@),
            routes: views(self.routes@),
            nested: Seq::new(
                self.nested@.len(),
                |i: int|
                    if 0 <= i < self.nested@.len() {
                        self.nested@[i]@
                    } else {
                        arbitrary()
                    },
            ),
        }
    }
}

/// The nested blueprints of a blueprint's view are the views of its nested
/// blueprints.
pub proof fn lemma_blueprint_view(bp: Blueprint)
    ensures
        bp@.constructors == views(bp.constructors@),
        bp@.middlewares == views(bp.middlewares@),
        bp@.routes == views(bp.routes@),
        bp@.nested == views(bp.nested@),
{
    reveal_with_fuel(<Blueprint as View>::view, 2);
    assert(bp@.nested =~= views(bp.nested@));
}

impl Blueprint {
    /// A blueprint that holds nothing.
    pub fn new() -> (r: Blueprint)
        ensures
            r@ == BlueprintView::empty(),
    {
        let r = Blueprint {
            constructors: Vec::new(),
            middlewares: Vec::new(),
            routes: Vec::new(),
            nested: Vec::new(),
        };
        proof {
            lemma_blueprint_view(r);
            assert(r@.constructors =~= Seq::empty());
            assert(r@.middlewares =~= Seq::empty());
            assert(r@.routes =~= Seq::empty());
            assert(r@.nested =~= Seq::empty());
        }
        r
    }

    /// Registers a constructor after those that are registered.
    pub fn constructor(&mut self, constructor: Constructor)
        ensures
            final(self)@ == old(self)@.with_constructor(constructor@),
    {
        proof {
            lemma_blueprint_view(*self);
            lemma_views_push(self.constructors@, constructor);
        }
        self.constructors.push(constructor);
        proof {
            lemma_blueprint_view(*self);
        }
    }

    /// Registers a middleware that wraps every route of the blueprint, inside
    /// those that are registered.
    pub fn wrap(&mut self, middleware: Callable)
        ensures
            final(self)@ == old(self)@.with_middleware(
                WrappingMiddlewareView { middleware: middleware@, error_handler: None },
            ),
    {
        let wrapping = WrappingMiddleware { middleware, error_handler: None };
        proof {
            lemma_blueprint_view(*self);
            lemma_views_push(self.middlewares@, wrapping);
        }
        self.middlewares.push(wrapping);
        proof {
            lemma_blueprint_view(*self);
        }
    }

    /// Registers a route after those that are registered.
    pub fn route(&mut self, route: RegisteredRoute)
        ensures
            final(self)@ == old(self)@.with_route(route@),
    {
        proof {
            lemma_blueprint_view(*self);
            lemma_views_push(self.routes@, route);
        }
        self.routes.push(route);
        proof {
            lemma_blueprint_view(*self);
        }
    }

    /// Nests `blueprint` in this one, after those that are nested. What is
    /// registered in a nested blueprint holds of its own routes only.
    pub fn nest(&mut self, blueprint: Blueprint)
        ensures
            final(self)@ == old(self)@.with_nested(blueprint@),
    {
        proof {
            lemma_blueprint_view(*self);
            lemma_views_push(self.nested@, blueprint);
        }
        self.nested.push(blueprint);
        proof {
            lemma_blueprint_view(*self);
        }
    }
}

impl BlueprintView {
    /// The blueprint that holds nothing.
    pub open spec fn empty() -> BlueprintView {
        BlueprintView {
            constructors: Seq::empty(),
            middlewares: Seq::empty(),
            routes: Seq::empty(),
            nested: Seq::empty(),
        }
    }

    /// This blueprint with one more constructor.
    pub open spec fn with_constructor(self, constructor: ConstructorView) -> BlueprintView {
        BlueprintView { constructors: self.constructors.push(constructor), ..self }
    }

    /// This blueprint with one more wrapping middleware.
    pub open spec fn with_middleware(self, middleware: WrappingMiddlewareView) -> BlueprintView {
        BlueprintView { middlewares: self.middlewares.push(middleware), ..self }
    }

    /// This blueprint with one more route.
    pub open spec fn with_route(self, route: RegisteredRouteView) -> BlueprintView {
        BlueprintView { routes: self.routes.push(route), ..self }
    }

    /// This blueprint with one more nested blueprint.
    pub open spec fn with_nested(self, nested: BlueprintView) -> BlueprintView {
        BlueprintView { nested: self.nested.push(nested), ..self }
    }
}

} // verus!
