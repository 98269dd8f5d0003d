//! Sessions with agents that speak the agent client protocol.

pub mod pool;
pub mod project;
