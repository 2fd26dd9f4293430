//! Server configuration: the bind address, the dump-path template and the
//! optional webhook URLs. Loading the TOML file happens at the application
//! edge; this module holds the plain record the core works with.

use vstd::prelude::*;

verus! {

/// Optional webhook URLs. An absent URL means "allow / skip".
pub struct Webhooks {
    /// Gates admission of a new source; receives mountpoint, id, password.
    pub stream_start: Option<String>,
    /// Notified when a source session ends.
    pub stream_end: Option<String>,
    /// Notified when a listener connects.
    pub listener_start: Option<String>,
    /// Notified when a listener disconnects.
    pub listener_end: Option<String>,
}

impl Default for Webhooks {
    /// All hooks absent: everything is allowed and nothing is notified.
    fn default() -> (w: Webhooks)
        ensures
            w.stream_start is None,
            w.stream_end is None,
            w.listener_start is None,
            w.listener_end is None,
    {
        Webhooks {
            stream_start: None,
            stream_end: None,
            listener_start: None,
            listener_end: None,
        }
    }
}

/// The loaded configuration.
pub struct Config {
    /// Bind address, `host:port`.
    pub listen: String,
    /// Dump path template; every literal `{uuid}` is replaced by the stream
    /// id's hyphenated text.
    pub stream_dump: String,
    /// Optional session cookie name forwarded to listener hooks.
    pub session_cookie: Option<String>,
    /// The webhook URLs.
    pub webhooks: Webhooks,
}

} // verus!
