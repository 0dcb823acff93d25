//! A transparent TCP forwarding proxy core: per-connection identifiers,
//! a text-safe byte encoder, NDJSON log-line rendering, a double-buffered
//! log sink, forwarding-rule parsing, and the per-connection session
//! state machine. The surrounding process (sockets, clock-driven flushing,
//! signal handling) lives outside this library and drives it with plain
//! values.

pub mod text;
pub mod encoding;
pub mod render;
pub mod connid;
pub mod rules;
pub mod output;
pub mod session;
