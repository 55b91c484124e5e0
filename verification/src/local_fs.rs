//! The local filesystem provider: identity, containment, freshness, and the
//! decisions of every operation. The system calls themselves are made by the
//! caller, which performs the actions named here and reports what came back.

pub mod bytes;
pub mod path;
pub mod fault;
pub mod walk;
pub mod events;
pub mod provider;
pub mod mutate;
pub mod laws;
pub mod content_laws;
pub mod path_laws;
pub mod tokens;
