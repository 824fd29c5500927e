//! Verified core of a multi-tenant, event-driven state machine service.

pub mod actions;
pub mod auth;
pub mod bignat;
pub mod cache;
pub mod db;
pub mod double;
pub mod engine;
pub mod entity;
pub mod errors;
pub mod guard;
pub mod ingest_tokens;
pub mod invariants;
pub mod json;
pub mod json_text;
pub mod laws;
pub mod machine;
pub mod models;
pub mod numeral;
pub mod plan;
pub mod query;
pub mod rational;
pub mod routes;
pub mod scheduler;
pub mod string_map;
pub mod text;
pub mod transition_core;
