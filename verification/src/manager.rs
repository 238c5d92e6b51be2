//! The manager that hands out the persistence handler of the configured
//! sessions.

use crate::config::SessionConfig;
use crate::handlers::FileHandler;
use vstd::prelude::*;

verus! {

/// Holds the configuration of sessions.
#[derive(Debug)]
pub struct Manager {
    config: SessionConfig,
}

impl Manager {
    /// The configuration that the manager holds.
    pub closed spec fn held(&self) -> SessionConfig {
        self.config
    }

    /// A manager of sessions that are configured by `config`.
    pub fn new(config: SessionConfig) -> (r: Manager)
        ensures
            r.held() == config,
    {
        Manager { config }
    }

    /// The configuration that the manager holds.
    pub fn config(&self) -> (r: &SessionConfig)
        ensures
            *r == self.held(),
    {
        &self.config
    }

    /// The handler that persists the sessions: one for files at the
    /// configured location, in which a session stays valid for the
    /// configured lifetime.
    pub fn get_backend(&self) -> (r: FileHandler)
        requires
            self.held().lifetime.normal(),
        ensures
            r.root() == self.held().file_location@,
            r.lifetime() == self.held().lifetime,
    {
        FileHandler::new(self.config.file_location.clone(), self.config.lifetime)
    }
}

} // verus!
