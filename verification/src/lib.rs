//! An event-readiness selector for WASI-style hosts, which offer a single
//! blocking multiplexing call.
//!
//! The crate holds the selector's sequential core: the subscription
//! registry, the decisions taken around each native poll, and the reading of
//! the events that a poll hands back. The blocking call itself, the wake
//! channel's descriptor and the locks around the registry belong to the
//! embedding program.

pub mod abi;
pub mod error;
pub mod event;
pub mod io_source;
pub mod protocol;
pub mod selector;
pub mod subscription;
