use vstd::prelude::*;
use crate::direction::Direction;

verus! {

/// The well-known port both channels are served on.
pub const SERVER_PORT: u16 = 14192;

/// Stable numeric identity the server gives a player for one connection.
#[derive(Clone, Copy, Debug, PartialEq, Eq, Structural, Hash)]
pub struct PlayerId(pub u32);

/// A tile coordinate on the grid.
#[derive(Clone, Copy, Debug, PartialEq, Eq, Structural)]
pub struct Position {
    pub x: u16,
    pub y: u16,
}

/// Client to server: the player asks to face or walk in a direction. The
/// position is what the client predicted; the server does not rely on it.
#[derive(Clone, Copy, Debug, PartialEq, Eq, Structural)]
pub struct MoveInput(pub Direction, pub Position);

/// Server to one client: the identity and spawn tile of its own player.
#[derive(Clone, Copy, Debug, PartialEq, Eq, Structural)]
pub struct Welcome(pub PlayerId, pub Position);

/// Server to clients: the full new state of a player. `distance` is zero
/// for a turn or a visibility update and positive for a step.
#[derive(Clone, Copy, Debug, PartialEq, Eq, Structural)]
pub struct MoveUpdate {
    pub player_id: PlayerId,
    pub direction: Direction,
    pub position: Position,
    pub distance: u16,
}

/// Server to clients: the player has disconnected.
#[derive(Clone, Copy, Debug, PartialEq, Eq, Structural)]
pub struct PlayerLeft(pub PlayerId);

/// Client to server traffic.
#[derive(Clone, Copy, Debug, PartialEq, Eq, Structural)]
pub enum ClientMessage {
    /// Opens the session; carries nothing.
    Hello,
    Move(MoveInput),
}

/// Server to client traffic.
#[derive(Clone, Copy, Debug, PartialEq, Eq, Structural)]
pub enum ServerMessage {
    Welcome(Welcome),
    MoveUpdate(MoveUpdate),
    PlayerLeft(PlayerLeft),
}

/// How a message travels: session traffic goes over the reliable, ordered
/// channel; movement is a stream where a lost update is superseded by the
/// next one, so it goes best-effort.
#[derive(Clone, Copy, Debug, PartialEq, Eq, Structural)]
pub enum Channel {
    Reliable,
    Unreliable,
}

pub open spec fn client_channel(m: ClientMessage) -> Channel {
    match m {
        ClientMessage::Hello => Channel::Reliable,
        ClientMessage::Move(_) => Channel::Unreliable,
    }
}

pub open spec fn server_channel(m: ServerMessage) -> Channel {
    match m {
        ServerMessage::MoveUpdate(_) => Channel::Unreliable,
        _ => Channel::Reliable,
    }
}

impl ClientMessage {
    pub fn channel(&self) -> (r: Channel)
        ensures
            r == client_channel(*self),
    {
        match self {
            ClientMessage::Hello => Channel::Reliable,
            ClientMessage::Move(_) => Channel::Unreliable,
        }
    }
}

impl ServerMessage {
    pub fn channel(&self) -> (r: Channel)
        ensures
            r == server_channel(*self),
    {
        match self {
            ServerMessage::Welcome(_) => Channel::Reliable,
            ServerMessage::MoveUpdate(_) => Channel::Unreliable,
            ServerMessage::PlayerLeft(_) => Channel::Reliable,
        }
    }
}

} // verus!
