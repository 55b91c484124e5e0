//! The verified core of a harness.

pub mod assoc;
pub mod config;
pub mod conformance;
pub mod credentials;
pub mod exec;
pub mod json;
pub mod local_fs;
pub mod seam;
pub mod text;
pub mod text_laws;
pub mod yaml;
