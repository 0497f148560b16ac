//! A verified core for a caching DNS resolution engine.
//!
//! The crate models the single-owner actor that turns raw upstream lookups
//! into a deduplicated, TTL-aware cache with a grace-period fallback store,
//! together with a verified HTTP chunked-transfer encoder state machine and
//! a small DNS encryption protocol type.

pub mod record;
pub mod domain_map;
pub mod cache;
pub mod doing;
pub mod trash;
pub mod engine;
pub mod laws;
pub mod chunked;
pub mod dns;
