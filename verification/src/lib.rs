//! Verified core of a terminal-multiplexer backend: a session registry that
//! owns live SSH and local-PTY sessions, an I/O pump that batches terminal
//! output into sequenced chunks with a bounded-latency policy, a replay
//! buffer for late-attaching clients, per-session server-status probing,
//! chunked SFTP upload planning, and credential encryption.
//!
//! All state transitions and parsers are verified; the network, PTY,
//! database and keychain calls live outside this crate and feed the
//! verified state machines with plain values.

pub mod credjson;
pub mod db;
pub mod encryption;
pub mod keychain;
pub mod pump;
pub mod ssh;
pub mod status;
pub mod terminal;
pub mod text;
pub mod upload;
