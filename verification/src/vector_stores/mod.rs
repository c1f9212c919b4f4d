//! Where memories are stored.
pub mod conformance;
pub mod document;
pub mod filter_eval;
pub mod filter_laws;
pub mod memory;
pub mod s3_vectors;
pub mod store_laws;
