//! Webhook outcomes. The HTTP POSTs themselves happen at the application
//! edge; the core interprets their results: which replies admit a source,
//! and which statuses count as success.

use vstd::prelude::*;

verus! {

/// Why a hook call failed.
#[derive(Debug, Clone, Copy, PartialEq, Eq, Structural)]
pub enum HookError {
    /// The HTTP request itself failed (connect, send, or decode).
    Transport,
    /// The hook answered with a non-success status.
    Status(u16),
}

/// The admission hook's answer for a new source.
#[derive(Debug, Clone, Copy, PartialEq, Eq, Structural)]
pub enum StreamStart {
    /// The source may broadcast.
    Allow,
    /// The source is rejected.
    Reject,
}

/// A 2xx status is success; anything else is reported as a status error.
pub fn status_is_success(status: u16) -> (r: bool)
    ensures
        r <==> 200 <= status < 300,
{
    200 <= status && status < 300
}

/// The answer assumed when no admission hook is configured: allow.
pub fn default_stream_start() -> (r: Result<StreamStart, HookError>)
    ensures
        r == Result::<StreamStart, HookError>::Ok(StreamStart::Allow),
{
    Ok(StreamStart::Allow)
}

/// Interprets the admission hook's reply: `ok: true` admits the source,
/// `ok: false` rejects it, and a transport or status failure is passed
/// through unchanged.
pub fn interpret_stream_start(outcome: Result<bool, HookError>) -> (r: Result<
    StreamStart,
    HookError,
>)
    ensures
        match outcome {
            Ok(true) => r == Result::<StreamStart, HookError>::Ok(StreamStart::Allow),
            Ok(false) => r == Result::<StreamStart, HookError>::Ok(StreamStart::Reject),
            Err(e) => r == Result::<StreamStart, HookError>::Err(e),
        },
{
    match outcome {
        Ok(true) => Ok(StreamStart::Allow),
        Ok(false) => Ok(StreamStart::Reject),
        Err(e) => Err(e),
    }
}

} // verus!
