//! A local, single-host process supervisor: it keeps the launch
//! configuration of externally supplied executables, tracks their runtime
//! state, plans privilege-aware spawns and graceful-then-forceful
//! termination, persists the configuration table as a JSON document, and
//! exposes recent log output.
//!
//! All operating-system interaction (spawning, signalling, file and
//! environment access) is left to the embedding program: this crate holds
//! the decision logic, the state transitions and the persistence format,
//! each with a verified contract.

pub mod data;
pub mod strutil;
pub mod sys;
pub mod manager;
pub mod paths;
pub mod spawn;
pub mod term;
pub mod json;
