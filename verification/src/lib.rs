//! Shared "now playing" synchronization engine.
//!
//! Rooms hold an authoritative playback state over a fixed, non-empty track
//! catalog. Members submit transport commands; a per-room ticker advances the
//! playback clock and auto-advances across track boundaries; every published
//! snapshot is fanned out to the room's subscribers.

pub mod codec;
pub mod engine;
pub mod model;
pub mod registry;
pub mod room;
pub mod session;

pub use model::Catalog;
pub use model::Message;
pub use model::PlayerCommand;
pub use model::PlayerState;
pub use model::StateModel;
pub use model::Track;
pub use model::TrackModel;
