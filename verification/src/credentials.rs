//! Local credentials: a record store read through per operation, and the
//! registry that runs one authorization at a time per reference.

pub mod flows;
pub mod laws;
pub mod record;
pub mod store;
