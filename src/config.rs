use vstd::prelude::*;

verus! {

/// Where the server listens.
pub struct Server {
    pub host: String,
    pub port: u16,
}

/// The server's settings, as loaded at startup.
pub struct Config {
    pub server: Server,
}

impl Config {
    /// Settings for listening on `host` at `port`.
    pub fn new(host: String, port: u16) -> (r: Config)
        ensures
            r.server.host@ == host@,
            r.server.port == port,
    {
        Config { server: Server { host, port } }
    }
}

} // verus!
