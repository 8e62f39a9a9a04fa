//! A verified core for an agent that exposes decorated "task" definitions in a
//! typed source module to a remote peer and executes remote-issued code against
//! them.
//!
//! The library covers the static-analysis side (a type-alias catalog, a task
//! extractor, a type-closure resolver and a context compiler) and the session
//! side (a wire-message model, the handshake state machine and the slot-based
//! execution bridge).  Parsing and printing of source text, the sandboxed
//! evaluator and the network transport are external collaborators: callers
//! hand the library plain values and drive the I/O themselves.

pub mod apps;
pub mod ast;
pub mod closure;
pub mod filter;
pub mod compile;
pub mod config;
pub mod prompts;
pub mod tasks;
pub mod proto;
pub mod session;
pub mod instance;
