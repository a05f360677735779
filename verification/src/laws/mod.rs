//! What holds of the library as a whole, stated over the views that its contracts use.

pub mod circuits;
pub mod deliveries;
pub mod delivery_calls;
pub mod scrape_calls;
pub mod scrapes;
pub mod session_calls;
pub mod sessions;
pub mod settings;
pub mod signatures;
pub mod state_calls;
pub mod tagging;
