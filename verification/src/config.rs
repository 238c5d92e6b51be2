//! The configuration of sessions, and the profile that an application runs
//! in.

use crate::text::str_eq;
use vstd::prelude::*;

verus! {

/// A span of time: whole seconds, and nanoseconds below one second.
#[derive(Debug, Clone, Copy, PartialEq, Eq, Structural)]
pub struct Span {
    pub secs: u64,
    pub nanos: u32,
}

impl Span {
    /// The span in nanoseconds.
    pub open spec fn total(self) -> int {
        self.secs * 1_000_000_000 + self.nanos
    }

    /// Whether the nanoseconds stay below one second.
    pub open spec fn normal(self) -> bool {
        self.nanos < 1_000_000_000
    }

    /// Whether this span is longer than `other`.
    pub fn exceeds(&self, other: &Span) -> (r: bool)
        requires
            self.normal(),
            other.normal(),
        ensures
            r == (self.total() > other.total()),
    {
        self.secs > other.secs || (self.secs == other.secs && self.nanos > other.nanos)
    }
}

/// The configuration of CSRF protection.
#[derive(Debug)]
pub struct CsrfConfig {
    /// The paths that are excluded from CSRF protection.
    pub exclude_paths: Vec<String>,
}

/// The configuration of sessions.
#[derive(Debug)]
pub struct SessionConfig {
    /// The driver that persists sessions; without one, sessions are not
    /// handled at all.
    pub driver: Option<String>,
    /// How long a session may stay idle before it expires.
    pub lifetime: Span,
    /// Where session files are stored.
    pub file_location: String,
    /// The name of the cookie that carries the session identifier.
    pub cookie_name: String,
    /// The path for which the session cookie is available.
    pub path: String,
    /// The domain of the session cookie.
    pub domain: Option<String>,
    /// Whether the session cookie is sent over HTTPS only.
    pub secure: bool,
    /// Whether the session cookie is hidden from scripts.
    pub http_only: bool,
    /// The chance that a request collects garbage: the first number out of
    /// the second.
    pub lottery: [u8; 2],
    /// How the session cookie behaves on cross-site requests.
    pub same_site: String,
    /// The configuration of CSRF protection.
    pub csrf: CsrfConfig,
}

/// The profile that an application runs in.
#[derive(Debug, Clone, Copy, PartialEq, Eq, Structural)]
pub enum Environment {
    /// Test profile.
    Test,
    /// Development profile.
    Dev,
    /// Production profile.
    Prod,
}

impl Environment {
    /// The name of the profile.
    pub open spec fn name(self) -> Seq<char> {
        match self {
            Environment::Dev => "dev"@,
            Environment::Test => "test"@,
            Environment::Prod => "prod"@,
        }
    }

    /// The name of the profile.
    pub fn as_str(&self) -> (r: &'static str)
        ensures
            r@ == self.name(),
    {
        match self {
            Environment::Dev => "dev",
            Environment::Test => "test",
            Environment::Prod => "prod",
        }
    }

    /// The profile that a lower-case word names, if it names one.
    pub open spec fn named(word: Seq<char>) -> Option<Environment> {
        if word == "test"@ {
            Some(Environment::Test)
        } else if word == "dev"@ || word == "development"@ {
            Some(Environment::Dev)
        } else if word == "prod"@ || word == "production"@ {
            Some(Environment::Prod)
        } else {
            None
        }
    }

    /// The profile that a lower-case word names, if it names one.
    pub fn from_name(word: &str) -> (r: Option<Environment>)
        ensures
            r == Environment::named(word@),
    {
        if str_eq(word, "test") {
            Some(Environment::Test)
        } else if str_eq(word, "dev") || str_eq(word, "development") {
            Some(Environment::Dev)
        } else if str_eq(word, "prod") || str_eq(word, "production") {
            Some(Environment::Prod)
        } else {
            None
        }
    }
}

} // verus!
