//! The server settings of a project.
use vstd::prelude::*;

verus! {

/// Where the development server listens.
#[derive(Debug)]
pub struct ServerConfig {
    pub host: String,
    /// The public origin, when it differs from `http://host:port`.
    pub origin: Option<String>,
    pub port: u16,
}

impl Default for ServerConfig {
    /// `localhost:3000`, without an origin of its own.
    fn default() -> (res: Self)
        ensures
            res.host@ == "localhost"@,
            res.origin is None,
            res.port == 3000,
    {
        ServerConfig { host: "localhost".to_string(), origin: None, port: 3000 }
    }
}

/// The settings of a project.
#[derive(Debug)]
pub struct Config {
    pub server: ServerConfig,
}

impl Default for Config {
    /// The default server settings.
    fn default() -> (res: Self)
        ensures
            res.server.host@ == "localhost"@,
            res.server.origin is None,
            res.server.port == 3000,
    {
        Config { server: ServerConfig::default() }
    }
}

} // verus!
