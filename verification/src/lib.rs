//! Long-term memory for agents: what is remembered, for whom, and how it is found again.
use vstd::prelude::*;

pub mod clock;
pub mod config;
pub mod errors;
pub mod history;
pub mod ids;
pub mod json;
pub mod memory;
pub mod models;
pub mod number;
pub mod numeric_order;
pub mod proxy;
pub mod ranking;
pub mod server;
pub mod text;
pub mod text_map;
pub mod tool_laws;
pub mod vector_stores;
pub mod views;

verus! {

} // verus!
