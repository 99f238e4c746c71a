//! The server configuration: plain settings handed in by the surrounding
//! loader. The engine itself never reads them from disk; the shell parses
//! the configuration file and passes these values in.

use vstd::prelude::*;

verus! {

/// Represents the server config.
#[derive(Debug)]
pub struct Server {
    /// The endpoint the transport listens on.
    pub endpoint: String,
}

/// Represents the monitoring config.
#[derive(Debug)]
pub struct Monitoring {
    /// Seconds between two statistics dumps.
    pub interval: u64,
}

/// Represents the main config.
#[derive(Debug)]
pub struct Astrobase {
    /// A free-form name of the running environment.
    pub environment: String,
    /// The transport settings.
    pub server: Server,
    /// The monitoring settings.
    pub monitoring: Monitoring,
}

impl Default for Server {
    /// An empty endpoint.
    fn default() -> (c: Server)
        ensures
            c.endpoint@ == Seq::<char>::empty(),
    {
        Server { endpoint: String::new() }
    }
}

impl Default for Monitoring {
    /// A zero interval.
    fn default() -> (c: Monitoring)
        ensures
            c.interval == 0,
    {
        Monitoring { interval: 0 }
    }
}

impl Default for Astrobase {
    /// An empty environment and default sections.
    fn default() -> (c: Astrobase)
        ensures
            c.environment@ == Seq::<char>::empty(),
            c.server.endpoint@ == Seq::<char>::empty(),
            c.monitoring.interval == 0,
    {
        Astrobase {
            environment: String::new(),
            server: Server::default(),
            monitoring: Monitoring::default(),
        }
    }
}

} // verus!
