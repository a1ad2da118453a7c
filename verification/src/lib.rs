//! Verified core of a multi-pane terminal mirror session.
//!
//! A server owns the terminals of a session. A mirror client keeps a replica of
//! the session's structure and replays every terminal's raw output into local
//! emulators, so scrolling and redrawing need no round trip. This crate holds
//! the rules of both ends: the replication log, the local mirrors, the replica
//! and its projection, the data connections, the input routing and the command
//! line.
//!
//! The modules whose names end in `_laws` state and prove what holds of all inputs.
pub mod cli;
pub mod cli_laws;
pub mod connection;
pub mod connection_laws;
pub mod control;
pub mod control_laws;
pub mod event_laws;
pub mod idmap;
pub mod json;
mod lists;
pub mod local_mirror;
pub mod log_laws;
pub mod mirror_laws;
pub mod output_log;
pub mod pane;
pub mod projection;
pub mod projection_laws;
pub mod protocol;
pub mod pump;
pub mod replica;
pub mod replica_laws;
pub mod routing;
pub mod routing_laws;
pub mod runtime;
pub mod runtime_laws;
pub mod schema;
pub mod scroll;
pub mod session;
pub mod session_laws;
pub mod terminal_state;
pub mod text;
pub mod text_laws;
pub mod view_laws;
