//! Core of a stateless-session chat relay: signed session credentials, an
//! append-only transcript store with time-based retention, the bearer-token
//! session guard, and the completion orchestrator that turns a transcript into
//! a provider request and a provider reply into a persisted turn.

pub mod agent;
pub mod auth;
pub mod config;
pub mod controller;
pub mod message;
pub mod protocol;
pub mod store;
