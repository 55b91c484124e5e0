//! The seams: the value types and provider traits that tools and providers
//! meet at. Every provider speaks these types; none of them knows a concrete
//! backend.

pub mod credentials;
pub mod error;
pub mod exec;
pub mod fs;
pub mod llm;
pub mod settings;
pub mod storage;
