//! The agent's configuration: the bearer token handed over at handshake.
//! Reading and writing the configuration file is the caller's I/O.

use vstd::prelude::*;

verus! {

/// The persistent configuration of the agent.
#[derive(Debug)]
pub struct Config {
    pub token: Option<String>,
}

impl Default for Config {
    /// A configuration with no token: the user has not logged in yet.
    fn default() -> (r: Self)
        ensures
            r.token is None,
    {
        Config { token: None }
    }
}

impl Config {
    /// Record the token handed to `login`.
    pub fn set_token(&mut self, token: String)
        ensures
            final(self).token == Some(token),
    {
        self.token = Some(token);
    }
}

} // verus!
