//! Verified core of a replicated workflow engine.

pub mod text;
pub mod ids;
pub mod json;
pub mod workflow;
pub mod command;
pub mod state_machine;
pub mod execution;
pub mod transport;
pub mod registry;
pub mod router;
pub mod node;
pub mod serve;
pub mod cluster;
pub mod service;
pub mod builder;
pub mod memory;
