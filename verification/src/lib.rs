//! A dynamic-DNS updater for Cloudflare zones, as a verified library.
//!
//! The library decides; the program around it performs. Each step of a
//! heartbeat takes what the outside world answered (addresses reported by the
//! detection providers, replies of the Cloudflare API, answers of the
//! authoritative name servers) and says what the state becomes and what has to
//! be asked next.

pub mod clock;
pub mod cloudflare;
pub mod config;
pub mod decisions;
pub mod detect;
pub mod error;
pub mod health;
pub mod heartbeat;
pub mod http;
pub mod json;
pub mod laws;
pub mod meaning;
pub mod nameserver;
pub mod record_ids;
pub mod state;
pub mod text;
