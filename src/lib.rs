//! Serverless multiplayer game rooms coordinated over publish/subscribe relays.
//!
//! The library holds the verified core of a game arena: the room lifecycle,
//! presence reconciliation, the four start modes, rematch and throttled state
//! broadcast, each as a state transition that returns what must be published
//! and which events the application sees. Performing the network traffic, the
//! timers and the event queue is left to the caller.

pub mod arena;
pub mod error;
pub mod kinds;
pub mod laws;
pub mod qr;
pub mod rooms;
pub mod time;
pub mod types;

pub use arena::{Arena, ArenaEvent};
pub use error::ArenaError;
pub use qr::{generate_qr_data_url, generate_qr_svg, QrOptions};

pub use types::{
    create_room_tag, generate_room_id, generate_seed, millis_of, now_ms, ArenaConfig, EventContent,
    GameOverEventContent, GameStartEventContent, HeartbeatEventContent, JoinEventContent,
    OpponentState, PlayerPresence, ReadyEventContent, RematchAction, RematchEventContent,
    RoomEventContent, RoomInfo, RoomState, RoomStatus, StartMode, StateEventContent,
};
