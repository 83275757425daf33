//! Core logic of a desktop test-run orchestrator.
//!
//! The library owns everything about a test run that can be stated and
//! proved: turning raw output chunks into clean log lines, assigning each
//! line a severity, guarding the single active-run slot, mapping process
//! events to the events a UI consumes, and walking directories upward to
//! find the workspace root. The surrounding process plumbing (spawning,
//! stream I/O, event delivery) lives with the host application, which
//! drives these functions and obeys their contracts.

pub mod classify;
pub mod events;
pub mod picker;
pub mod sanitize;
pub mod session;
pub mod workspace;
