//! Process configuration, resolved once at startup.

use vstd::prelude::*;

verus! {

/// The resolved configuration: an explicit value passed by reference to
/// the components that need it, never ambient global state. The host
/// resolves it from its environment; the scan itself needs only the root
/// directory.
#[derive(Debug, Clone)]
pub struct Config {
    pub root_dir: String,
    pub log_level: String,
    pub otlp_endpoint: Option<String>,
}

impl Config {
    /// A configuration from resolved values.
    pub fn new(root_dir: String, log_level: String, otlp_endpoint: Option<String>) -> (c: Config)
        ensures
            c.root_dir == root_dir,
            c.log_level == log_level,
            c.otlp_endpoint == otlp_endpoint,
    {
        Config { root_dir, log_level, otlp_endpoint }
    }
}

} // verus!
