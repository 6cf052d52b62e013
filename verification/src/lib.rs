//! A host-side manager for dynamically loaded, sandboxed executable modules.
//!
//! The host keeps a registry of live sandbox instances keyed by module name,
//! dispatches calls into their exported functions under a checkout discipline
//! that guarantees exclusive use during a call, and marshals bytes between two
//! isolated linear memories with bounds checks that never read or write
//! outside an owned region. The execution engine itself (compiling bytecode,
//! instantiating sandboxes, running guest instructions) is a collaborator
//! driven by the embedding; this crate holds every host-side decision and is
//! verified.

pub mod errors;
pub mod memory;
pub mod registry;
pub mod host;
pub mod laws;
