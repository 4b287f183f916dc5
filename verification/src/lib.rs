//! Versioned product events.
//!
//! The library turns a caller-supplied product snapshot and an operation kind
//! into an immutable domain event with a derived identity and version, renders
//! the event as its JSON wire payload, and models a publisher that hands the
//! payloads to a broker connection in call order.

pub mod errors;
pub mod event;
pub mod json;
pub mod publisher;
pub mod version;
