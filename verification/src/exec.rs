//! The local execution world: the sandbox verdict, the subprocess capture and
//! the shell that binds the two.

pub mod bash;
pub mod sandbox;
pub mod subprocess;
pub mod laws;
