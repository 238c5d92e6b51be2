//! Request-scoped sessions and declarative routing for a server framework.
//!
//! The crate holds the session store with its flash-data aging and identifier
//! rules, the decisions of the session and CSRF middleware, the decisions of
//! the file-backed persistence handler, and the router that compiles named,
//! middleware-annotated routes into a blueprint.

pub mod text;
pub mod value;
pub mod string_map;
pub mod attributes;
pub mod random;
pub mod session;
pub mod laws;
pub mod http;
pub mod cookies;
pub mod response;
pub mod config;
pub mod csrf;
pub mod handlers;
pub mod manager;
pub mod middleware;
pub mod blueprint;
pub mod inflection;
pub mod router;
pub mod application;

pub use application::Application;
pub use config::{CsrfConfig, SessionConfig};
pub use csrf::{TokenMismatchError, VerifyCsrfToken};
pub use manager::Manager;
pub use middleware::StartSession;
pub use router::Router;
pub use session::Session;
