//! The conformance kit: suites that drive a provider through its seam and
//! report every obligation it fails.

pub mod adapter_laws;
pub mod adapter_suite;
pub mod executor_laws;
pub mod executor_run;
pub mod executor_suite;
pub mod fs_cases;
pub mod fs_laws;
pub mod fs_run;
pub mod fs_suite;
pub mod report;
pub mod stubs;
pub mod suite_laws;
