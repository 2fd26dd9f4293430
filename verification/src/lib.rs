//! An Icecast-compatible audio broadcast relay, with its core logic verified:
//! the per-mountpoint registry lifecycle, the lossy fan-out channel that
//! shields a real-time producer from slow consumers, and the pure parts of the
//! source pipeline (request parsing, credential extraction, dump-path
//! construction, packet policy).

pub mod audio;
pub mod config;
pub mod cookie;
pub mod fanout;
pub mod hooks;
pub mod ident;
pub mod log;
pub mod ogg;
pub mod server;
pub mod text;
