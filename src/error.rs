//! Errors of the arena operations.

use vstd::prelude::*;

verus! {

/// The kinds of failure an arena operation reports.
#[derive(Debug, Clone, PartialEq, Eq)]
pub enum ArenaError {
    NotConnected,
    RoomNotFound,
    RoomExpired,
    RoomFull,
    RoomDeleted,
    InvalidRoomData(String),
    Timeout,
    NotAuthorized(String),
    AlreadyInRoom,
    NotInRoom,
    Nostr(String),
    Serialization(String),
}

} // verus!
