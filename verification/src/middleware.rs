//! The session middleware: the life of a session over one request, as a
//! machine that is told what happened and says what is to be done next.

use crate::attributes::Attributes;
use crate::blueprint::{
    Blueprint, Callable, CallableView, CloningStrategy, Constructor, ConstructorView, Lifecycle,
    WrappingMiddlewareView,
};
use crate::config::SessionConfig;
use crate::cookies::{
    cookies, jar_get, request_cookies, set_cookie_text, set_cookie_value,
    set_cookie_value_for_domain, SameSite,
};
use crate::http::{Method, RequestHead};
use crate::random::draw_below;
use crate::response::Response;
use crate::session::{
    aged, can_age, id_taken, merged, previous_url_key, token_ensured, valid_id, AttributeMap,
    Session,
};
use crate::string_map::empty_map;
use crate::text::{clone_optional_text, optional_text, str_eq};
use crate::value::{Value, ValueView};
use vstd::prelude::*;

verus! {

/// Where the machine stands.
#[derive(Debug, Clone, Copy, PartialEq, Eq, Structural)]
pub enum Phase {
    /// Nothing has happened yet.
    Start,
    /// The attributes of the session are being read.
    Loading,
    /// Garbage is being collected.
    Collecting,
    /// The rest of the pipeline is running.
    Running,
    /// The attributes of the session are being written.
    Saving,
    /// The request is over.
    Done,
}

/// What happened.
#[derive(Debug)]
pub enum Event {
    /// The request arrived.
    Request,
    /// The attributes of the session were read.
    Loaded(Attributes),
    /// Garbage was collected.
    Collected,
    /// The rest of the pipeline answered.
    Responded(Response),
    /// The attributes of the session were written.
    Saved,
}

/// What is to be done next.
#[derive(Debug)]
pub enum Action {
    /// Run the rest of the pipeline and return its response as it is.
    Bypass,
    /// Read the attributes that are persisted under the identifier.
    Read(String),
    /// Collect the garbage of the persistence handler.
    Collect,
    /// Run the rest of the pipeline.
    Invoke,
    /// Write the attributes under the identifier.
    Write { id: String, attributes: Attributes },
    /// Return the response.
    Return(Response),
}

/// Whether `event` is what the machine waits for in `phase`.
pub open spec fn expects(phase: Phase, event: Event) -> bool {
    match phase {
        Phase::Start => event is Request,
        Phase::Loading => event is Loaded,
        Phase::Collecting => event is Collected,
        Phase::Running => event is Responded,
        Phase::Saving => event is Saved,
        Phase::Done => false,
    }
}

/// The session identifier that the request carries in its cookies.
pub open spec fn cookie_id(req: &RequestHead, config: &SessionConfig) -> Option<Seq<char>> {
    if request_cookies(req).contains_key(config.cookie_name@) {
        Some(request_cookies(req)[config.cookie_name@])
    } else {
        None
    }
}

/// Whether the request was made by a script: its `X-Requested-With` header
/// says `XMLHttpRequest`.
pub open spec fn is_xhr(req: &RequestHead) -> bool {
    req.header_value("x-requested-with"@) == Some("XMLHttpRequest"@)
}

/// `m` with the target of the request remembered as the previous URL, where
/// the request is a GET that no script made.
pub open spec fn with_previous_url(m: AttributeMap, req: &RequestHead) -> AttributeMap {
    if req.method == Method::Get && !is_xhr(req) {
        m.insert(previous_url_key(), ValueView::Text(req.uri@))
    } else {
        m
    }
}

/// The value of the `Set-Cookie` header that carries the session identifier
/// `id` with the configured attributes.
pub open spec fn session_cookie(id: Seq<char>, config: &SessionConfig) -> Seq<char> {
    set_cookie_text(
        config.cookie_name@,
        id,
        config.http_only,
        SameSite::named(config.same_site@),
        config.secure,
        config.path@,
        optional_text(config.domain),
    )
}

/// Whether a lottery draw wins: it is not above the first number of the
/// lottery.
pub open spec fn wins(draw: u8, lottery: [u8; 2]) -> bool {
    draw <= lottery[0]
}

/// Whether `after` is the session `before` started with `id` and
/// `attributes`.
pub open spec fn started_from(
    before: &Session,
    after: &Session,
    id: Option<String>,
    attributes: AttributeMap,
) -> bool {
    &&& after@.started
    &&& id_taken(optional_text(id), after@.id)
    &&& id is Some ==> (after@.id == id->Some_0@ <==> valid_id(id->Some_0@))
    &&& token_ensured(merged(before@.attributes, attributes), after@.attributes)
}

/// The middleware that starts the session of a request and persists it when
/// the request is over.
#[derive(Debug)]
pub struct StartSession {
    phase: Phase,
    id: Option<String>,
    response: Option<Response>,
}

impl StartSession {
    #[verifier::type_invariant]
    spec fn holds_what_it_returns(self) -> bool {
        self.phase == Phase::Saving ==> self.response is Some
    }

    /// Where the machine stands.
    pub closed spec fn phase(&self) -> Phase {
        self.phase
    }

    /// The identifier that the request carried, once it was looked for.
    pub closed spec fn carried_id(&self) -> Option<String> {
        self.id
    }

    /// The response that is held back until the session is written.
    pub closed spec fn held_response(&self) -> Option<Response> {
        self.response
    }

    /// A machine at its start.
    pub fn new() -> (r: StartSession)
        ensures
            r.phase() == Phase::Start,
            r.carried_id() is None,
            r.held_response() is None,
    {
        StartSession { phase: Phase::Start, id: None, response: None }
    }

    /// Where the machine stands.
    pub fn current_phase(&self) -> (r: Phase)
        ensures
            r == self.phase(),
    {
        self.phase
    }

    /// Whether a lottery draw wins, so that garbage is to be collected.
    pub fn lottery_wins(draw: u8, lottery: [u8; 2]) -> (r: bool)
        ensures
            r == wins(draw, lottery),
    {
        draw <= lottery[0]
    }

    /// Draws from the lottery and says whether garbage is to be collected:
    /// the draw is a random number from 1 up to, but without, the second
    /// number of the lottery, and it wins where it is not above the first.
    pub fn collect_garbage(config: &SessionConfig) -> (r: bool)
        requires
            config.lottery[1] > 1,
        ensures
            r ==> config.lottery[0] >= 1,
            config.lottery[0] >= config.lottery[1] - 1 ==> r,
            exists|draw: u8| 1 <= draw < config.lottery[1] && r == #[trigger] wins(
                draw,
                config.lottery,
            ),
    {
        let draw = draw_below(config.lottery[1]);
        let r = Self::lottery_wins(draw, config.lottery);
        assert(r == wins(draw, config.lottery));
        r
    }

    /// Remembers the target of the request as the previous URL of the
    /// session, where the request is a GET that no script made.
    pub fn store_current_url(session: &mut Session, req: &RequestHead)
        ensures
            final(session)@.attributes == with_previous_url(old(session)@.attributes, req),
            final(session)@.id == old(session)@.id,
            final(session)@.started == old(session)@.started,
    {
        let scripted = match req.header("x-requested-with") {
            Some(value) => str_eq(value.as_str(), "XMLHttpRequest"),
            None => false,
        };
        match req.method {
            Method::Get => {
                if !scripted {
                    session.set_previous_url(req.uri.clone());
                }
            },
            _ => {},
        }
    }

    /// Appends the `Set-Cookie` header that carries the identifier of the
    /// session, with the configured attributes, to the response.
    pub fn add_cookie_to_response(session: &Session, response: &mut Response, config: &SessionConfig)
        ensures
            final(response).headers@.len() == old(response).headers@.len() + 1,
            final(response).headers@.drop_last() == old(response).headers@,
            final(response).headers@.last().0@ == "set-cookie"@,
            final(response).headers@.last().1@ == session_cookie(session@.id, config),
            final(response).status == old(response).status,
            final(response).body == old(response).body,
    {
        let id = session.id();
        let same_site = SameSite::from_name(config.same_site.as_str());
        let value = match &config.domain {
            Some(domain) => set_cookie_value_for_domain(
                config.cookie_name.as_str(),
                id.as_str(),
                config.http_only,
                same_site,
                config.secure,
                config.path.as_str(),
                domain.as_str(),
            ),
            None => set_cookie_value(
                config.cookie_name.as_str(),
                id.as_str(),
                config.http_only,
                same_site,
                config.secure,
                config.path.as_str(),
            ),
        };
        response.append_header("set-cookie", value);
    }

    /// The session identifier that the request carries in the cookie of the
    /// configured name.
    pub fn session_id(req: &RequestHead, config: &SessionConfig) -> (r: Option<String>)
        ensures
            optional_text(r) == cookie_id(req, config),
    {
        let jar = cookies(req);
        jar_get(&jar, config.cookie_name.as_str())
    }

    fn begin(&mut self, session: &mut Session, attributes: Attributes, config: &SessionConfig) -> (r:
        Action)
        requires
            !old(session)@.started,
            config.lottery[1] > 1,
        ensures
            started_from(old(session), final(session), old(self).carried_id(), attributes@),
            r is Collect || r is Invoke,
            r is Collect <==> final(self).phase() == Phase::Collecting,
            r is Invoke <==> final(self).phase() == Phase::Running,
            r is Collect ==> config.lottery[0] >= 1,
            config.lottery[0] >= config.lottery[1] - 1 ==> r is Collect,
            final(self).carried_id() == old(self).carried_id(),
            final(self).held_response() == old(self).held_response(),
    {
        let id = clone_optional_text(&self.id);
        let started = session.start(id, attributes);
        if Self::collect_garbage(config) {
            self.phase = Phase::Collecting;
            Action::Collect
        } else {
            self.phase = Phase::Running;
            Action::Invoke
        }
    }

    /// Takes the machine one step on: told what happened, it says what is to
    /// be done next.
    ///
    /// - At the start, without a configured driver the request bypasses
    ///   session handling. With one, the attributes under the identifier
    ///   that the request carries are to be read; where it carries none, the
    ///   session starts at once, without attributes.
    /// - Once the attributes are read, the session is started with them;
    ///   then garbage is collected where the lottery draw wins, and the rest
    ///   of the pipeline runs.
    /// - Once the pipeline has answered, the previous URL is remembered, the
    ///   session cookie is set on the response, the session is ended, and
    ///   its aged attributes are to be written under its identifier.
    /// - Once they are written, the response is returned.
    pub fn handle(
        &mut self,
        event: Event,
        req: &RequestHead,
        session: &mut Session,
        config: &SessionConfig,
    ) -> (r: Action)
        requires
            expects(old(self).phase(), event),
            config.lottery[1] > 1,
            event is Request || event is Loaded ==> !old(session)@.started,
            event is Responded ==> old(session)@.started && can_age(
                with_previous_url(old(session)@.attributes, req),
            ),
        ensures
            match event {
                Event::Request => if config.driver is None {
                    &&& r is Bypass
                    &&& final(self).phase() == Phase::Done
                    &&& *final(session) == *old(session)
                } else if cookie_id(req, config) is Some {
                    &&& r matches Action::Read(id) && Some(id@) == cookie_id(req, config)
                    &&& final(self).phase() == Phase::Loading
                    &&& optional_text(final(self).carried_id()) == cookie_id(req, config)
                    &&& *final(session) == *old(session)
                } else {
                    &&& started_from(old(session), final(session), None, empty_map::<Value>())
                    &&& r is Collect || r is Invoke
                    &&& r is Collect <==> final(self).phase() == Phase::Collecting
                    &&& r is Invoke <==> final(self).phase() == Phase::Running
                    &&& r is Collect ==> config.lottery[0] >= 1
                    &&& config.lottery[0] >= config.lottery[1] - 1 ==> r is Collect
                },
                Event::Loaded(attributes) => {
                    &&& started_from(
                        old(session),
                        final(session),
                        old(self).carried_id(),
                        attributes@,
                    )
                    &&& r is Collect || r is Invoke
                    &&& r is Collect <==> final(self).phase() == Phase::Collecting
                    &&& r is Invoke <==> final(self).phase() == Phase::Running
                    &&& r is Collect ==> config.lottery[0] >= 1
                    &&& config.lottery[0] >= config.lottery[1] - 1 ==> r is Collect
                },
                Event::Collected => {
                    &&& r is Invoke
                    &&& final(self).phase() == Phase::Running
                    &&& *final(session) == *old(session)
                },
                Event::Responded(response) => {
                    &&& r matches Action::Write { id, attributes } && id@ == old(session)@.id
                        && attributes@ == aged(with_previous_url(old(session)@.attributes, req))
                    &&& final(self).phase() == Phase::Saving
                    &&& final(self).held_response() matches Some(held) && held.status
                        == response.status && held.body == response.body
                        && held.headers@.drop_last() == response.headers@ && held.headers@.len()
                        == response.headers@.len() + 1 && held.headers@.last().0@
                        == "set-cookie"@ && held.headers@.last().1@ == session_cookie(
                        old(session)@.id,
                        config,
                    )
                    &&& !final(session)@.started
                    &&& final(session)@.id == old(session)@.id
                    &&& final(session)@.attributes == empty_map::<Value>()
                },
                Event::Saved => {
                    &&& r matches Action::Return(response) && Some(response) == old(
                        self,
                    ).held_response()
                    &&& final(self).phase() == Phase::Done
                    &&& *final(session) == *old(session)
                },
            },
    {
        match event {
            Event::Request => {
                if config.driver.is_none() {
                    self.phase = Phase::Done;
                    return Action::Bypass;
                }
                match Self::session_id(req, config) {
                    Some(id) => {
                        self.id = Some(id.clone());
                        self.phase = Phase::Loading;
                        Action::Read(id)
                    },
                    None => {
                        self.id = None;
                        self.begin(session, Attributes::new(), config)
                    },
                }
            },
            Event::Loaded(attributes) => self.begin(session, attributes, config),
            Event::Collected => {
                self.phase = Phase::Running;
                Action::Invoke
            },
            Event::Responded(response) => {
                let mut response = response;
                Self::store_current_url(session, req);
                Self::add_cookie_to_response(session, &mut response, config);
                let id = session.id();
                let attributes = match session.end() {
                    Ok(attributes) => attributes,
                    Err(_) => Attributes::new(),
                };
                self.response = Some(response);
                self.phase = Phase::Saving;
                Action::Write { id, attributes }
            },
            Event::Saved => {
                proof {
                    use_type_invariant(&*self);
                }
                self.phase = Phase::Done;
                let mut held: Option<Response> = None;
                core::mem::swap(&mut self.response, &mut held);
                match held {
                    Some(response) => Action::Return(response),
                    None => Action::Bypass,
                }
            },
        }
    }
}

/// Registers the session with a blueprint: the constructors of the session
/// and of its manager, and the middleware that starts the session.
pub fn register(bp: &mut Blueprint)
    ensures
        final(bp)@ == old(bp)@.with_constructor(
            ConstructorView {
                callable: session_callable("crate::Session::new"@),
                lifecycle: Lifecycle::RequestScoped,
                cloning: Some(CloningStrategy::CloneIfNecessary),
                error_handler: None,
            },
        ).with_constructor(
            ConstructorView {
                callable: session_callable("crate::Manager::new"@),
                lifecycle: Lifecycle::Singleton,
                cloning: None,
                error_handler: None,
            },
        ).with_middleware(
            WrappingMiddlewareView {
                middleware: session_callable("crate::StartSession::handle"@),
                error_handler: None,
            },
        ),
{
    bp.constructor(
        Constructor {
            callable: Callable::new(
                "crate::Session::new",
                "framework",
                "src/middleware.rs",
                0,
                0,
            ),
            lifecycle: Lifecycle::RequestScoped,
            cloning: Some(CloningStrategy::CloneIfNecessary),
            error_handler: None,
        },
    );
    bp.constructor(
        Constructor {
            callable: Callable::new(
                "crate::Manager::new",
                "framework",
                "src/middleware.rs",
                0,
                0,
            ),
            lifecycle: Lifecycle::Singleton,
            cloning: None,
            error_handler: None,
        },
    );
    bp.wrap(
        Callable::new(
            "crate::StartSession::handle",
            "framework",
            "src/middleware.rs",
            0,
            0,
        ),
    );
}

/// The reference to an item of this crate at `path`, as `register` makes it.
pub open spec fn session_callable(path: Seq<char>) -> CallableView {
    CallableView {
        path,
        registered_at: "framework"@,
        file: "src/middleware.rs"@,
        line: 0,
        column: 0,
    }
}

} // verus!
