//! A process-supervision bridge: the decisions behind launching a worker
//! process, framing its output into lines, decoding each line as an event and
//! reporting how the run ended.  All waiting and reading is left to the
//! caller; this crate computes what to publish and what to do next.

pub mod command;
pub mod decoder;
pub mod event;
pub mod framing;
pub mod json;
pub mod reader;
pub mod session;
pub mod trace;
