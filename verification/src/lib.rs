//! Local coordination primitives for parallel agents: a bulletin of tasks
//! with leased claims, its JSON-RPC surface, its markdown audit trail and
//! the logic of the command-line client.

pub mod a2a;
pub mod answers;
pub mod cli;
pub mod json;
pub mod laws;
pub mod model;
pub mod order;
pub mod promises;
pub mod rows;
pub mod slug;
pub mod store;
pub mod text;
pub mod time;
pub mod trail;
pub mod types;
pub mod vault;
