//! A per-user registry of named layers, each bound to one content link.

pub mod account;
pub mod error;
pub mod event;
pub mod laws;
pub mod model;
pub mod registry;
mod table;

pub use account::AccountId;
pub use error::Error;
pub use event::LayerCreated;
pub use registry::GalaxyContract;
