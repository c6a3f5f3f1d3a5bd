//! The configuration the core reads: the server's hostname, the banner
//! block, and the listeners to open. Loading it from files, flags and
//! the environment happens outside.
use vstd::prelude::*;
use crate::text::{split_on, split_string};

verus! {

/// One listener: where to bind, and its TLS material when enabled.
pub struct ListenConfig {
    pub address: String,
    pub tls: bool,
    pub tls_cert: Option<String>,
    pub tls_key: Option<String>,
}

/// The default for a listener's TLS flag: off.
pub fn def_false() -> (r: bool)
    ensures
        !r,
{
    false
}

/// The server configuration the core consumes.
pub struct Config {
    pub config: String,
    pub hostname: String,
    pub motd: String,
    pub listeners: Vec<(String, ListenConfig)>,
}

impl Config {
    /// The banner block, split into its lines.
    pub fn motd_lines(&self) -> (r: Vec<String>)
        ensures
            r.deep_view() == split_on(self.motd@, '\n'),
    {
        split_string(self.motd.as_str(), '\n')
    }
}

} // verus!
