//! An HTTP upload endpoint: filename derivation, the per-request upload
//! decisions and the process lifecycle decisions, each with its contract.
pub mod filename;
pub mod upload;
pub mod container;
pub mod host;
