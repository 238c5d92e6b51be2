//! The application: constructors, middleware and routes are registered in
//! any order and compiled into one blueprint, routes first.

use crate::blueprint::{
    lemma_views_push, optional_callable, views, Blueprint, BlueprintView, Callable,
    CallableView, CloningStrategy, Constructor, ConstructorView, Lifecycle, Registry,
    WrappingMiddlewareView,
};
use crate::router::route::RouteView;
use crate::router::{compiled, reports, resolved, Router};
use crate::string_map::empty_map;
use vstd::prelude::*;

verus! {

/// Work that is put off until the application is built.
#[derive(Debug)]
pub enum Callback {
    /// The routes of a router are to be compiled into the blueprint.
    RegisterRoutes(Router),
    /// A middleware is to wrap the whole blueprint.
    GlobalMiddleware(Callable),
}

/// The content of a [`Callback`].
pub enum CallbackView {
    RegisterRoutes(Seq<RouteView>),
    GlobalMiddleware(CallableView),
}

impl View for Callback {
    type V = CallbackView;

    open spec fn view(&self) -> CallbackView {
        match self {
            Callback::RegisterRoutes(router) => CallbackView::RegisterRoutes(router@),
            Callback::GlobalMiddleware(middleware) => CallbackView::GlobalMiddleware(middleware@),
        }
    }
}

/// The state of an application, as contracts see it.
pub struct ApplicationView {
    pub blueprint: BlueprintView,
    pub callbacks: Seq<CallbackView>,
    pub middleware: Map<Seq<char>, CallableView>,
}

/// An application that is being put together.
#[derive(Debug)]
pub struct Application {
    blueprint: Blueprint,
    callbacks: Vec<Callback>,
    middleware: Registry,
}

impl View for Application {
    type V = ApplicationView;

    closed spec fn view(&self) -> ApplicationView {
        ApplicationView {
            blueprint: self.blueprint@,
            callbacks: views(self.callbacks@),
            middleware: self.middleware@,
        }
    }
}

/// A reference to `path` as the application itself registers it.
pub open spec fn own_callable(path: Seq<char>) -> CallableView {
    CallableView {
        path,
        registered_at: "framework"@,
        file: "src/application.rs"@,
        line: 0,
        column: 0,
    }
}

/// A constructor of values that live for one request, which the application
/// itself registers.
pub open spec fn extractor(path: Seq<char>, error_handler: Option<Seq<char>>) -> ConstructorView {
    ConstructorView {
        callable: own_callable(path),
        lifecycle: Lifecycle::RequestScoped,
        cloning: None,
        error_handler: match error_handler {
            Some(handler) => Some(own_callable(handler)),
            None => None,
        },
    }
}

/// The constructors that every application starts with: those of the JSON
/// body, the path parameters, the query parameters, the buffered body and
/// the limit on the size of a body.
pub open spec fn default_constructors() -> Seq<ConstructorView> {
    seq![
        extractor(
            "pavex::request::body::JsonBody::extract"@,
            Some("pavex::request::body::errors::ExtractJsonBodyError::into_response"@),
        ),
        extractor(
            "pavex::request::path::PathParams::extract"@,
            Some("pavex::request::path::errors::ExtractPathParamsError::into_response"@),
        ),
        extractor(
            "pavex::request::query::QueryParams::extract"@,
            Some("pavex::request::query::errors::ExtractQueryParamsError::into_response"@),
        ),
        extractor(
            "pavex::request::body::BufferedBody::extract"@,
            Some("pavex::request::body::errors::ExtractBufferedBodyError::into_response"@),
        ),
        extractor(
            "<pavex::request::body::BodySizeLimit as std::default::Default>::default"@,
            None,
        ),
    ]
}

/// Whether the routes of every router among `callbacks` name registered
/// middleware only.
pub open spec fn all_resolved(
    callbacks: Seq<CallbackView>,
    registry: Map<Seq<char>, CallableView>,
) -> bool {
    forall|i: int|
        0 <= i < callbacks.len() ==> (#[trigger] callbacks[i] matches CallbackView::RegisterRoutes(
            routes,
        ) ==> resolved(routes, registry))
}

/// `bp` with the routes of the routers among the first `n` of `callbacks`
/// compiled into it, in their order.
pub open spec fn with_routes(
    bp: BlueprintView,
    callbacks: Seq<CallbackView>,
    registry: Map<Seq<char>, CallableView>,
    n: int,
) -> BlueprintView
    decreases n,
{
    if n <= 0 {
        bp
    } else {
        let before = with_routes(bp, callbacks, registry, n - 1);
        match callbacks[n - 1] {
            CallbackView::RegisterRoutes(routes) => compiled(
                before,
                routes,
                registry,
                routes.len() as int,
            ),
            CallbackView::GlobalMiddleware(_) => before,
        }
    }
}

/// `bp` wrapped by the middleware among the first `n` of `callbacks`, in
/// their order.
pub open spec fn with_global_middleware(
    bp: BlueprintView,
    callbacks: Seq<CallbackView>,
    n: int,
) -> BlueprintView
    decreases n,
{
    if n <= 0 {
        bp
    } else {
        let before = with_global_middleware(bp, callbacks, n - 1);
        match callbacks[n - 1] {
            CallbackView::RegisterRoutes(_) => before,
            CallbackView::GlobalMiddleware(middleware) => before.with_middleware(
                WrappingMiddlewareView { middleware, error_handler: None },
            ),
        }
    }
}

/// The blueprint that an application is built into: every router is
/// compiled before any global middleware is registered, whatever the order
/// in which they were given, so that global middleware wrap every route.
pub open spec fn built(app: ApplicationView) -> BlueprintView {
    with_global_middleware(
        with_routes(app.blueprint, app.callbacks, app.middleware, app.callbacks.len() as int),
        app.callbacks,
        app.callbacks.len() as int,
    )
}

/// The registry after the first `n` of `entries` were registered in turn.
pub open spec fn registered_all(
    registry: Map<Seq<char>, CallableView>,
    entries: Seq<(String, Callable)>,
    n: int,
) -> Map<Seq<char>, CallableView>
    decreases n,
{
    if n <= 0 {
        registry
    } else {
        registered_all(registry, entries, n - 1).insert(entries[n - 1].0@, entries[n - 1].1@)
    }
}

fn own(path: &str) -> (r: Callable)
    ensures
        r@ == own_callable(path@),
{
    Callable::new(path, "framework", "src/application.rs", 0, 0)
}

fn own_extractor(path: &str, error_handler: Option<&str>) -> (r: Constructor)
    ensures
        r@ == extractor(
            path@,
            match error_handler {
                Some(handler) => Some(handler@),
                None => None,
            },
        ),
{
    Constructor {
        callable: own(path),
        lifecycle: Lifecycle::RequestScoped,
        cloning: None,
        error_handler: match error_handler {
            Some(handler) => Some(own(handler)),
            None => None,
        },
    }
}

impl Application {
    /// An application with the default constructors and nothing else.
    pub fn new() -> (r: Application)
        ensures
            r@.blueprint == (BlueprintView {
                constructors: default_constructors(),
                ..BlueprintView::empty()
            }),
            r@.callbacks == Seq::<CallbackView>::empty(),
            r@.middleware == empty_map::<Callable>(),
    {
        let app = Application {
            blueprint: Blueprint::new(),
            callbacks: Vec::new(),
            middleware: Registry::new(),
        };
        assert(app@.callbacks =~= Seq::<CallbackView>::empty());
        app.default_extractors()
    }

    fn default_extractors(self) -> (r: Application)
        requires
            self@.blueprint == BlueprintView::empty(),
        ensures
            r@.blueprint == (BlueprintView {
                constructors: default_constructors(),
                ..BlueprintView::empty()
            }),
            r@.callbacks == self@.callbacks,
            r@.middleware == self@.middleware,
    {
        let mut app = self;
        app.blueprint.constructor(
            own_extractor(
                "pavex::request::body::JsonBody::extract",
                Some("pavex::request::body::errors::ExtractJsonBodyError::into_response"),
            ),
        );
        app.blueprint.constructor(
            own_extractor(
                "pavex::request::path::PathParams::extract",
                Some("pavex::request::path::errors::ExtractPathParamsError::into_response"),
            ),
        );
        app.blueprint.constructor(
            own_extractor(
                "pavex::request::query::QueryParams::extract",
                Some("pavex::request::query::errors::ExtractQueryParamsError::into_response"),
            ),
        );
        app.blueprint.constructor(
            own_extractor(
                "pavex::request::body::BufferedBody::extract",
                Some("pavex::request::body::errors::ExtractBufferedBodyError::into_response"),
            ),
        );
        app.blueprint.constructor(
            own_extractor(
                "<pavex::request::body::BodySizeLimit as std::default::Default>::default",
                None,
            ),
        );
        assert(app@.blueprint.constructors =~= default_constructors());
        app
    }

    fn construct(
        self,
        constructor: Callable,
        lifecycle: Lifecycle,
        cloning: Option<CloningStrategy>,
        error_handler: Option<Callable>,
    ) -> (r: Application)
        ensures
            r@.blueprint == self@.blueprint.with_constructor(
                ConstructorView {
                    callable: constructor@,
                    lifecycle,
                    cloning,
                    error_handler: optional_callable(error_handler),
                },
            ),
            r@.callbacks == self@.callbacks,
            r@.middleware == self@.middleware,
    {
        let mut app = self;
        app.blueprint.constructor(
            Constructor { callable: constructor, lifecycle, cloning, error_handler },
        );
        app
    }

    /// Registers a constructor of values that are made anew wherever they
    /// are needed.
    pub fn bind(self, constructor: Callable, error_handler: Option<Callable>) -> (r: Application)
        ensures
            r@.blueprint == self@.blueprint.with_constructor(
                ConstructorView {
                    callable: constructor@,
                    lifecycle: Lifecycle::Transient,
                    cloning: None,
                    error_handler: optional_callable(error_handler),
                },
            ),
            r@.callbacks == self@.callbacks,
            r@.middleware == self@.middleware,
    {
        self.construct(constructor, Lifecycle::Transient, None, error_handler)
    }

    /// Registers a constructor of values that live for one request.
    pub fn request_scoped(
        self,
        constructor: Callable,
        cloning_strategy: CloningStrategy,
        error_handler: Option<Callable>,
    ) -> (r: Application)
        ensures
            r@.blueprint == self@.blueprint.with_constructor(
                ConstructorView {
                    callable: constructor@,
                    lifecycle: Lifecycle::RequestScoped,
                    cloning: Some(cloning_strategy),
                    error_handler: optional_callable(error_handler),
                },
            ),
            r@.callbacks == self@.callbacks,
            r@.middleware == self@.middleware,
    {
        self.construct(
            constructor,
            Lifecycle::RequestScoped,
            Some(cloning_strategy),
            error_handler,
        )
    }

    /// Registers a constructor of values that live as long as the
    /// application.
    pub fn singleton(
        self,
        constructor: Callable,
        cloning_strategy: CloningStrategy,
        error_handler: Option<Callable>,
    ) -> (r: Application)
        ensures
            r@.blueprint == self@.blueprint.with_constructor(
                ConstructorView {
                    callable: constructor@,
                    lifecycle: Lifecycle::Singleton,
                    cloning: Some(cloning_strategy),
                    error_handler: optional_callable(error_handler),
                },
            ),
            r@.callbacks == self@.callbacks,
            r@.middleware == self@.middleware,
    {
        self.construct(constructor, Lifecycle::Singleton, Some(cloning_strategy), error_handler)
    }

    /// Puts off the registration of a middleware that wraps the whole
    /// application until it is built.
    pub fn global_middleware(self, middleware: Callable) -> (r: Application)
        ensures
            r@.callbacks == self@.callbacks.push(CallbackView::GlobalMiddleware(middleware@)),
            r@.blueprint == self@.blueprint,
            r@.middleware == self@.middleware,
    {
        let mut app = self;
        let callback = Callback::GlobalMiddleware(middleware);
        proof {
            lemma_views_push(app.callbacks@, callback);
        }
        app.callbacks.push(callback);
        app
    }

    /// Registers middleware under the names by which routes refer to them;
    /// of two entries with one name the later one stays.
    pub fn middleware(self, middleware: Vec<(String, Callable)>) -> (r: Application)
        ensures
            r@.middleware == registered_all(
                self@.middleware,
                middleware@,
                middleware@.len() as int,
            ),
            r@.blueprint == self@.blueprint,
            r@.callbacks == self@.callbacks,
    {
        let mut app = self;
        let mut i: usize = 0;
        while i < middleware.len()
            invariant
                i <= middleware@.len(),
                app@.middleware == registered_all(self@.middleware, middleware@, i as int),
                app@.blueprint == self@.blueprint,
                app@.callbacks == self@.callbacks,
            decreases middleware@.len() - i,
        {
            app.middleware.insert(middleware[i].0.as_str(), middleware[i].1.clone());
            i += 1;
        }
        app
    }

    /// Registers what requests are traced with: the constructor of the root
    /// span, and the logger as a middleware that wraps the whole
    /// application.
    pub fn with_telemetry(self) -> (r: Application)
        ensures
            r@.blueprint == self@.blueprint.with_constructor(
                ConstructorView {
                    callable: own_callable("crate::telemetry::RootSpan::new"@),
                    lifecycle: Lifecycle::RequestScoped,
                    cloning: Some(CloningStrategy::CloneIfNecessary),
                    error_handler: None,
                },
            ),
            r@.callbacks == self@.callbacks.push(
                CallbackView::GlobalMiddleware(own_callable("crate::telemetry::logger"@)),
            ),
            r@.middleware == self@.middleware,
    {
        self.request_scoped(
            own("crate::telemetry::RootSpan::new"),
            CloningStrategy::CloneIfNecessary,
            None,
        ).global_middleware(own("crate::telemetry::logger"))
    }

    /// Lets `integration` register what it brings with the blueprint.
    pub fn register<F: FnOnce(Blueprint) -> Blueprint>(self, integration: F) -> (r: Application)
        requires
            forall|bp: Blueprint| bp@ == self@.blueprint ==> #[trigger] integration.requires((bp,)),
        ensures
            exists|before: Blueprint, after: Blueprint|
                before@ == self@.blueprint && after@ == r@.blueprint
                    && #[trigger] integration.ensures((before,), after),
            r@.callbacks == self@.callbacks,
            r@.middleware == self@.middleware,
    {
        let Application { blueprint, callbacks, middleware } = self;
        let ghost before = blueprint;
        let after = integration(blueprint);
        let r = Application { blueprint: after, callbacks, middleware };
        assert(before@ == self@.blueprint && r.blueprint@ == r@.blueprint && integration.ensures(
            (before,),
            r.blueprint,
        ));
        r
    }

    /// Puts off the compilation of the routes that `routes` gives until the
    /// application is built.
    pub fn routes<F: FnOnce() -> Router>(self, routes: F) -> (r: Application)
        requires
            routes.requires(()),
        ensures
            exists|router: Router| #[trigger]
                routes.ensures((), router) && r@.callbacks == self@.callbacks.push(
                    CallbackView::RegisterRoutes(router@),
                ),
            r@.blueprint == self@.blueprint,
            r@.middleware == self@.middleware,
    {
        let router = routes();
        let ghost given = router;
        let mut app = self;
        let callback = Callback::RegisterRoutes(router);
        proof {
            lemma_views_push(app.callbacks@, callback);
        }
        app.callbacks.push(callback);
        assert(routes.ensures((), given) && app@.callbacks == self@.callbacks.push(
            CallbackView::RegisterRoutes(given@),
        ));
        app
    }

    /// Whether every route of every router names registered middleware
    /// only, so that the application can be built.
    pub fn can_build(&self) -> (r: bool)
        ensures
            r == all_resolved(self@.callbacks, self@.middleware),
    {
        let mut i: usize = 0;
        while i < self.callbacks.len()
            invariant
                i <= self.callbacks@.len(),
                forall|j: int|
                    0 <= j < i ==> (#[trigger] self@.callbacks[j] matches CallbackView::RegisterRoutes(
                        routes,
                    ) ==> resolved(routes, self@.middleware)),
            decreases self.callbacks@.len() - i,
        {
            assert(self@.callbacks[i as int] == self.callbacks@[i as int]@);
            match &self.callbacks[i] {
                Callback::RegisterRoutes(router) => {
                    if router.first_unregistered(&self.middleware).is_some() {
                        return false;
                    }
                },
                Callback::GlobalMiddleware(_) => {},
            }
            i += 1;
        }
        true
    }

    /// The first route of a router that names a middleware which is not
    /// registered, by its path, and that name; none where the application
    /// can be built.
    pub fn first_unregistered(&self) -> (r: Option<(String, String)>)
        ensures
            r is None <==> all_resolved(self@.callbacks, self@.middleware),
            r is Some ==> exists|k: int|
                0 <= k < self@.callbacks.len() && (
                #[trigger] self@.callbacks[k] matches CallbackView::RegisterRoutes(routes)
                    && reports(routes, self@.middleware, r->Some_0.0@, r->Some_0.1@)),
    {
        let mut k: usize = 0;
        while k < self.callbacks.len()
            invariant
                k <= self.callbacks@.len(),
                forall|j: int|
                    0 <= j < k ==> (#[trigger] self@.callbacks[j] matches CallbackView::RegisterRoutes(
                        routes,
                    ) ==> resolved(routes, self@.middleware)),
            decreases self.callbacks@.len() - k,
        {
            assert(self@.callbacks[k as int] == self.callbacks@[k as int]@);
            match &self.callbacks[k] {
                Callback::RegisterRoutes(router) => {
                    let found = router.first_unregistered(&self.middleware);
                    if found.is_some() {
                        assert(self@.callbacks[k as int] matches CallbackView::RegisterRoutes(
                            routes,
                        ) && reports(
                            routes,
                            self@.middleware,
                            found->Some_0.0@,
                            found->Some_0.1@,
                        ));
                        return found;
                    }
                },
                Callback::GlobalMiddleware(_) => {},
            }
            k += 1;
        }
        None
    }

    fn run_callbacks(&mut self)
        requires
            all_resolved(old(self)@.callbacks, old(self)@.middleware),
        ensures
            final(self)@.blueprint == built(old(self)@),
            final(self)@.callbacks == Seq::<CallbackView>::empty(),
            final(self)@.middleware == old(self)@.middleware,
    {
        let mut callbacks: Vec<Callback> = Vec::new();
        core::mem::swap(&mut self.callbacks, &mut callbacks);
        let ghost all = views(callbacks@);
        let ghost start = old(self)@.blueprint;
        let ghost registry = old(self)@.middleware;
        let mut i: usize = 0;
        while i < callbacks.len()
            invariant
                i <= callbacks@.len(),
                all == views(callbacks@),
                all_resolved(all, registry),
                self.middleware@ == registry,
                self.callbacks@ == Seq::<Callback>::empty(),
                self.blueprint@ == with_routes(start, all, registry, i as int),
            decreases callbacks@.len() - i,
        {
            assert(all[i as int] == callbacks@[i as int]@);
            match &callbacks[i] {
                Callback::RegisterRoutes(router) => {
                    router.compile_into(&mut self.blueprint, &self.middleware);
                },
                Callback::GlobalMiddleware(_) => {},
            }
            i += 1;
        }
        let ghost routed = self.blueprint@;
        let mut j: usize = 0;
        while j < callbacks.len()
            invariant
                j <= callbacks@.len(),
                all == views(callbacks@),
                self.middleware@ == registry,
                self.callbacks@ == Seq::<Callback>::empty(),
                self.blueprint@ == with_global_middleware(routed, all, j as int),
            decreases callbacks@.len() - j,
        {
            assert(all[j as int] == callbacks@[j as int]@);
            match &callbacks[j] {
                Callback::RegisterRoutes(_) => {},
                Callback::GlobalMiddleware(middleware) => {
                    self.blueprint.wrap(middleware.clone());
                },
            }
            j += 1;
        }
        assert(self@.callbacks =~= Seq::<CallbackView>::empty());
    }

    /// Builds the application into its blueprint: the routes of every
    /// router are compiled first, then every global middleware is
    /// registered. Every middleware that a route names must be registered.
    pub fn build(self) -> (r: Blueprint)
        requires
            all_resolved(self@.callbacks, self@.middleware),
        ensures
            r@ == built(self@),
    {
        let mut app = self;
        app.run_callbacks();
        app.blueprint
    }
}

/// The routers among `callbacks`, in their order.
pub open spec fn routers_of(callbacks: Seq<CallbackView>) -> Seq<Seq<RouteView>>
    decreases callbacks.len(),
{
    if callbacks.len() == 0 {
        Seq::empty()
    } else {
        match callbacks.last() {
            CallbackView::RegisterRoutes(routes) => routers_of(callbacks.drop_last()).push(routes),
            CallbackView::GlobalMiddleware(_) => routers_of(callbacks.drop_last()),
        }
    }
}

/// The global middleware among `callbacks`, in their order.
pub open spec fn globals_of(callbacks: Seq<CallbackView>) -> Seq<CallableView>
    decreases callbacks.len(),
{
    if callbacks.len() == 0 {
        Seq::empty()
    } else {
        match callbacks.last() {
            CallbackView::RegisterRoutes(_) => globals_of(callbacks.drop_last()),
            CallbackView::GlobalMiddleware(middleware) => globals_of(callbacks.drop_last()).push(
                middleware,
            ),
        }
    }
}

/// `bp` with the routes of each of `routers` compiled into it, in their
/// order.
pub open spec fn compiled_all(
    bp: BlueprintView,
    routers: Seq<Seq<RouteView>>,
    registry: Map<Seq<char>, CallableView>,
) -> BlueprintView
    decreases routers.len(),
{
    if routers.len() == 0 {
        bp
    } else {
        compiled(
            compiled_all(bp, routers.drop_last(), registry),
            routers.last(),
            registry,
            routers.last().len() as int,
        )
    }
}

/// `bp` wrapped by each of `middleware`, in their order.
pub open spec fn wrapped_all(bp: BlueprintView, middleware: Seq<CallableView>) -> BlueprintView
    decreases middleware.len(),
{
    if middleware.len() == 0 {
        bp
    } else {
        wrapped_all(bp, middleware.drop_last()).with_middleware(
            WrappingMiddlewareView { middleware: middleware.last(), error_handler: None },
        )
    }
}

proof fn lemma_with_routes(
    bp: BlueprintView,
    callbacks: Seq<CallbackView>,
    registry: Map<Seq<char>, CallableView>,
    n: int,
)
    requires
        0 <= n <= callbacks.len(),
    ensures
        with_routes(bp, callbacks, registry, n) == compiled_all(
            bp,
            routers_of(callbacks.take(n)),
            registry,
        ),
    decreases n,
{
    if n > 0 {
        lemma_with_routes(bp, callbacks, registry, n - 1);
        let head = callbacks.take(n);
        assert(head.drop_last() =~= callbacks.take(n - 1));
        assert(head.last() == callbacks[n - 1]);
        match callbacks[n - 1] {
            CallbackView::RegisterRoutes(routes) => {
                let routers = routers_of(head);
                assert(routers.last() == routes);
                assert(routers.drop_last() =~= routers_of(callbacks.take(n - 1)));
            },
            CallbackView::GlobalMiddleware(_) => {},
        }
    }
}

proof fn lemma_with_global_middleware(bp: BlueprintView, callbacks: Seq<CallbackView>, n: int)
    requires
        0 <= n <= callbacks.len(),
    ensures
        with_global_middleware(bp, callbacks, n) == wrapped_all(
            bp,
            globals_of(callbacks.take(n)),
        ),
    decreases n,
{
    if n > 0 {
        lemma_with_global_middleware(bp, callbacks, n - 1);
        let head = callbacks.take(n);
        assert(head.drop_last() =~= callbacks.take(n - 1));
        assert(head.last() == callbacks[n - 1]);
        match callbacks[n - 1] {
            CallbackView::RegisterRoutes(_) => {},
            CallbackView::GlobalMiddleware(middleware) => {
                let globals = globals_of(head);
                assert(globals.last() == middleware);
                assert(globals.drop_last() =~= globals_of(callbacks.take(n - 1)));
            },
        }
    }
}

/// Routes are compiled before any global middleware is registered: the
/// blueprint that an application is built into is its blueprint with the
/// routers compiled into it, in their order, and then wrapped by the global
/// middleware, in their order.
pub proof fn law_routes_come_before_global_middleware(app: ApplicationView)
    ensures
        built(app) == wrapped_all(
            compiled_all(app.blueprint, routers_of(app.callbacks), app.middleware),
            globals_of(app.callbacks),
        ),
{
    let n = app.callbacks.len() as int;
    assert(app.callbacks.take(n) =~= app.callbacks);
    lemma_with_routes(app.blueprint, app.callbacks, app.middleware, n);
    lemma_with_global_middleware(
        with_routes(app.blueprint, app.callbacks, app.middleware, n),
        app.callbacks,
        n,
    );
}

/// The order in which routers and global middleware were given to an
/// application with respect to each other does not matter: two applications
/// that were given the same routers and the same global middleware, each in
/// the same order, are built into the same blueprint.
pub proof fn law_build_ignores_interleaving(a: ApplicationView, b: ApplicationView)
    requires
        a.blueprint == b.blueprint,
        a.middleware == b.middleware,
        routers_of(a.callbacks) == routers_of(b.callbacks),
        globals_of(a.callbacks) == globals_of(b.callbacks),
    ensures
        built(a) == built(b),
{
    law_routes_come_before_global_middleware(a);
    law_routes_come_before_global_middleware(b);
}

} // verus!
