pub mod neat_core;
pub mod neat;
pub mod agent;
