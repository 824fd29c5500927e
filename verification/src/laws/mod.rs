//! What the service promises of every event, move, timeout, guard and definition, in terms of what
//! goes in and what comes out.

pub mod conditions;
pub mod definitions;
pub mod handling;
pub mod joins;
pub mod lists;
pub mod moves;
pub mod numbers;
pub mod service;
pub mod timeouts;
