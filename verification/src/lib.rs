//! Core of an embeddable script-execution engine bootstrap: extension
//! composition and ordering, the capability authority that mediates every
//! privileged call, snapshot-based versus cold isolate start, and the
//! recursive worker hierarchy with its shared process-wide state.
//!
//! The script engine itself (parsing, bytecode execution, the event loop)
//! is an external collaborator; this crate holds the decisions around it:
//! which extensions initialize in which order, which privileged requests
//! are allowed, when a snapshot may be reused, and how nested workers are
//! spawned, observed and terminated.

pub mod capability;
pub mod codec;
pub mod options;
pub mod registry;
pub mod snapshot;
pub mod bootstrap;
pub mod worker;
