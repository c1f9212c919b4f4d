//! Adding, finding and changing memories.
pub mod add;
pub mod finding;
pub mod inferred;
pub mod laws;
pub mod manager;
pub mod prompts;
pub mod protocol;
pub mod related;
pub mod scope;
pub mod writes;
