//! Verification of the CSRF token of a request.

use crate::config::CsrfConfig;
use crate::http::{Method, RequestHead};
use crate::response::Response;
use crate::session::{text_or_absent, token_key, Session};
use crate::text::{optional_text, str_eq, strings};
use crate::value::ValueView;
use vstd::prelude::*;

verus! {

/// The error of a request whose CSRF token does not match that of its
/// session.
#[derive(Debug, Clone, Copy, PartialEq, Eq, Structural)]
pub struct TokenMismatchError {}

impl TokenMismatchError {
    /// The status that the error is answered with.
    pub fn status(&self) -> (r: u16)
        ensures
            r == 419,
    {
        419
    }

    /// The message of the error.
    pub fn message(&self) -> (r: &'static str)
        ensures
            r@ == "CSRF token mismatch."@,
    {
        "CSRF token mismatch."
    }

    /// The response that answers the error: status 419 with the message as
    /// its body.
    pub fn into_response(self) -> (r: Response)
        ensures
            r.status == 419,
            r.body@ == "CSRF token mismatch."@,
            r.headers@ == Seq::<(String, String)>::empty(),
    {
        let mut r = Response::new(self.status());
        r.body = self.message().to_owned();
        r
    }
}

/// The middleware that lets a request through only if it reads, runs under
/// a test profile, is excluded, or carries the CSRF token of its session.
pub struct VerifyCsrfToken {}

/// Whether `profile` is a test profile: `test` or `testing`.
pub open spec fn is_test_profile(profile: Seq<char>) -> bool {
    profile == "test"@ || profile == "testing"@
}

/// Whether the token that the request carries is the token of the session.
pub open spec fn token_matches(req: &RequestHead, session: &Session) -> bool {
    match req.header_value("x-csrf-token"@) {
        Some(token) => session@.attributes.contains_key(token_key())
            && session@.attributes[token_key()] == ValueView::Text(token),
        None => false,
    }
}

/// Whether a request is let through without a look at its token.
pub open spec fn exempt(req: &RequestHead, config: &CsrfConfig, profile: Seq<char>) -> bool {
    req.method.reads_only() || is_test_profile(profile) || strings(
        config.exclude_paths@,
    ).contains(req.path@)
}

impl VerifyCsrfToken {
    /// Decides whether the request is let through to what comes after this
    /// middleware. `profile` is the profile that the application runs in,
    /// empty where none is set.
    ///
    /// The token of the session is looked at only for a request that is not
    /// exempt; the session must then be started and hold nothing but a
    /// string as its token.
    pub fn handle(
        req: &RequestHead,
        session: &Session,
        config: &CsrfConfig,
        profile: &str,
    ) -> (r: Result<(), TokenMismatchError>)
        requires
            !exempt(req, config, profile@) ==> session@.started && text_or_absent(
                session@.attributes,
                token_key(),
            ),
        ensures
            r is Ok <==> exempt(req, config, profile@) || token_matches(req, session),
    {
        if Self::is_reading(req) || Self::running_tests(profile) || Self::is_excluded(req, config)
            || Self::tokens_match(req, session) {
            return Ok(());
        }
        Err(TokenMismatchError {  })
    }

    /// Whether the request only reads: its method is GET, HEAD or OPTIONS.
    pub fn is_reading(req: &RequestHead) -> (r: bool)
        ensures
            r == req.method.reads_only(),
    {
        match req.method {
            Method::Get | Method::Head | Method::Options => true,
            _ => false,
        }
    }

    /// Whether `profile` is a test profile.
    pub fn running_tests(profile: &str) -> (r: bool)
        ensures
            r == is_test_profile(profile@),
    {
        str_eq(profile, "test") || str_eq(profile, "testing")
    }

    /// Whether the path of the request is excluded from CSRF protection.
    pub fn is_excluded(req: &RequestHead, config: &CsrfConfig) -> (r: bool)
        ensures
            r == strings(config.exclude_paths@).contains(req.path@),
    {
        crate::text::list_contains(&config.exclude_paths, req.path.as_str())
    }

    /// Whether the request carries a token and that token is the token of
    /// the session.
    pub fn tokens_match(req: &RequestHead, session: &Session) -> (r: bool)
        requires
            session@.started,
            text_or_absent(session@.attributes, token_key()),
        ensures
            r == token_matches(req, session),
    {
        let token = Self::get_token(req);
        match token {
            Some(carried) => match session.token() {
                Some(held) => str_eq(carried.as_str(), held.as_str()),
                None => false,
            },
            None => false,
        }
    }

    /// The token that the request carries in its `X-CSRF-Token` header.
    pub fn get_token(req: &RequestHead) -> (r: Option<String>)
        ensures
            optional_text(r) == req.header_value("x-csrf-token"@),
    {
        match req.header("x-csrf-token") {
            Some(token) => Some(token.clone()),
            None => None,
        }
    }
}

} // verus!
