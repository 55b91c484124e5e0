//! Layered configuration and boot: documents, substitution, composition, mount.

pub mod boot;
pub mod boot_laws;
pub mod bundles;
pub mod compose;
pub mod compose_laws;
pub mod decode;
pub mod dir_store;
pub mod doc;
pub mod doc_laws;
pub mod encode;
pub mod error;
pub mod laws;
pub mod memory;
pub mod op_laws;
pub mod profiles;
pub mod subst;
