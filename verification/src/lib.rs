//! The in-memory state of a WhatsApp gateway: sessions, webhooks with their circuit breakers and
//! dead letters, tags, recent events, and metrics.

pub mod circuits;
pub mod clock;
pub mod config;
pub mod delivery;
pub mod events;
pub mod families;
pub mod laws;
pub mod metrics;
pub mod registry;
mod seqs;
pub mod session;
pub mod signing;
pub mod state;
pub mod table;
pub mod tags;
pub mod text;
pub mod text_set;
pub mod webhooks;
