//! An embedding-inference gateway core: a bounded, ordered job queue fronting
//! a fixed pool of workers, plus the request validation, configuration
//! resolution and response shaping around it. The dispatcher guarantees that
//! each admitted job is claimed by exactly one worker and answered exactly
//! once, that at most the configured number of backend calls run at a time,
//! and that excess submissions wait instead of failing or being dropped.

pub mod backend;
pub mod config;
pub mod gateway;
pub mod queue;
pub mod types;
