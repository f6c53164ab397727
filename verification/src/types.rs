//! The wire envelope and message catalog: what clients send, what the
//! server answers and broadcasts. The envelope is a tag byte followed by a
//! tag-specific payload; see the codec for the exact byte layout.

use vstd::prelude::*;

use crate::color::Rgb;
use crate::geom::Pos;
use crate::leaderboard::{entries_view, LbEntryV, LeaderboardEntry};
use crate::snake::{valid_name, Snake, SnakeV};

verus! {

/// The mathematical value of an inbound message.
pub enum ClientMessageV {
    /// Join request, with an optional display name.
    JoinGame { name: Option<Seq<char>> },
    /// Explicit leave; treated like a disconnect.
    LeaveGame,
    /// New heading for the sender's snake, as a milli-unit vector.
    MoveSnake { dir_x: i64, dir_y: i64 },
    /// Heartbeat answer; accepted and ignored.
    Pong,
    /// Client-reported pickup; advisory only, the server re-validates.
    FoodEat,
}

/// Events sent from the client to the server.
pub enum ClientMessage {
    /// Join request, with an optional display name.
    JoinGame { name: Option<String> },
    /// Explicit leave; treated like a disconnect.
    LeaveGame,
    /// New heading for the sender's snake, as a milli-unit vector.
    MoveSnake { dir_x: i64, dir_y: i64 },
    /// Heartbeat answer; accepted and ignored.
    Pong,
    /// Client-reported pickup; advisory only, the server re-validates.
    FoodEat,
}

impl View for ClientMessage {
    type V = ClientMessageV;

    open spec fn view(&self) -> ClientMessageV {
        match self {
            ClientMessage::JoinGame { name: Some(s) } => ClientMessageV::JoinGame {
                name: Some(s@),
            },
            ClientMessage::JoinGame { name: None } => ClientMessageV::JoinGame { name: None },
            ClientMessage::LeaveGame => ClientMessageV::LeaveGame,
            ClientMessage::MoveSnake { dir_x, dir_y } => ClientMessageV::MoveSnake {
                dir_x: *dir_x,
                dir_y: *dir_y,
            },
            ClientMessage::Pong => ClientMessageV::Pong,
            ClientMessage::FoodEat => ClientMessageV::FoodEat,
        }
    }
}

/// The message is one the codec can carry: a supplied display name is
/// ASCII and fits the length prefix.
pub open spec fn valid_client_msg(m: ClientMessageV) -> bool {
    match m {
        ClientMessageV::JoinGame { name: Some(s) } => valid_name(s),
        _ => true,
    }
}

/// The wire envelope of an inbound packet.
pub struct WsClientPacket {
    /// The message that is sent to the server.
    pub message: ClientMessage,
}

impl View for WsClientPacket {
    type V = ClientMessageV;

    open spec fn view(&self) -> ClientMessageV {
        self.message@
    }
}

/// The mathematical value of an outbound message.
pub enum ServerMessageV {
    /// Sent only to the joining connection; carries its own snake.
    PlayerInit { snake: SnakeV },
    /// A new player joined; broadcast to everyone.
    PlayerJoined { snake: SnakeV },
    /// A player left; its snake is gone.
    PlayerLeft { id: u128 },
    /// A snake died this tick.
    SnakeDied { id: u128 },
    /// Full refresh of one snake's record.
    UpdateSnake { snake: SnakeV },
    /// A snake's target length rose.
    IncreasePlayerLength { id: u128, amount: u32 },
    /// A snake's target length fell.
    DecreasePlayerLength { id: u128, amount: u32 },
    /// The ranked projection changed.
    UpdateLeaderboard { entries: Seq<LbEntryV> },
    /// Coarse positions for the minimap.
    UpdateMinimap { positions: Seq<Pos> },
    /// Pellets appeared at these positions.
    FoodSpawned { positions: Seq<Pos>, color: Rgb },
    /// A pellet was consumed at this position.
    FoodEaten { position: Pos },
}

/// Events created by the server, sent to one or all clients.
pub enum ServerMessage {
    /// Sent only to the joining connection; carries its own snake.
    PlayerInit { snake: Snake },
    /// A new player joined; broadcast to everyone.
    PlayerJoined { snake: Snake },
    /// A player left; its snake is gone.
    PlayerLeft { id: u128 },
    /// A snake died this tick.
    SnakeDied { id: u128 },
    /// Full refresh of one snake's record.
    UpdateSnake { snake: Snake },
    /// A snake's target length rose.
    IncreasePlayerLength { id: u128, amount: u32 },
    /// A snake's target length fell.
    DecreasePlayerLength { id: u128, amount: u32 },
    /// The ranked projection changed.
    UpdateLeaderboard { entries: Vec<LeaderboardEntry> },
    /// Coarse positions for the minimap.
    UpdateMinimap { positions: Vec<Pos> },
    /// Pellets appeared at these positions.
    FoodSpawned { positions: Vec<Pos>, color: Rgb },
    /// A pellet was consumed at this position.
    FoodEaten { position: Pos },
}

impl View for ServerMessage {
    type V = ServerMessageV;

    open spec fn view(&self) -> ServerMessageV {
        match self {
            ServerMessage::PlayerInit { snake } => ServerMessageV::PlayerInit { snake: snake@ },
            ServerMessage::PlayerJoined { snake } => ServerMessageV::PlayerJoined {
                snake: snake@,
            },
            ServerMessage::PlayerLeft { id } => ServerMessageV::PlayerLeft { id: *id },
            ServerMessage::SnakeDied { id } => ServerMessageV::SnakeDied { id: *id },
            ServerMessage::UpdateSnake { snake } => ServerMessageV::UpdateSnake { snake: snake@ },
            ServerMessage::IncreasePlayerLength { id, amount } =>
                ServerMessageV::IncreasePlayerLength { id: *id, amount: *amount },
            ServerMessage::DecreasePlayerLength { id, amount } =>
                ServerMessageV::DecreasePlayerLength { id: *id, amount: *amount },
            ServerMessage::UpdateLeaderboard { entries } => ServerMessageV::UpdateLeaderboard {
                entries: entries_view(entries@),
            },
            ServerMessage::UpdateMinimap { positions } => ServerMessageV::UpdateMinimap {
                positions: positions@,
            },
            ServerMessage::FoodSpawned { positions, color } => ServerMessageV::FoodSpawned {
                positions: positions@,
                color: *color,
            },
            ServerMessage::FoodEaten { position } => ServerMessageV::FoodEaten {
                position: *position,
            },
        }
    }
}

/// The message is one the codec can carry: names are ASCII and fit their
/// length prefix, list sizes fit their count prefix.
pub open spec fn valid_server_msg(m: ServerMessageV) -> bool {
    match m {
        ServerMessageV::PlayerInit { snake } => valid_wire_snake(snake),
        ServerMessageV::PlayerJoined { snake } => valid_wire_snake(snake),
        ServerMessageV::UpdateSnake { snake } => valid_wire_snake(snake),
        ServerMessageV::UpdateLeaderboard { entries } => entries.len() <= u32::MAX && forall|i: int|
            0 <= i < entries.len() ==> valid_name((#[trigger] entries[i]).name),
        ServerMessageV::UpdateMinimap { positions } => positions.len() <= u32::MAX,
        ServerMessageV::FoodSpawned { positions, .. } => positions.len() <= u32::MAX,
        _ => true,
    }
}

/// The snake record fits the wire layout: name prefixed by one length
/// byte, body prefixed by a four-byte count.
pub open spec fn valid_wire_snake(s: SnakeV) -> bool {
    valid_name(s.name) && s.body.len() <= u32::MAX
}

/// The wire envelope of an outbound packet.
pub struct WsServerPacket {
    /// The message that is sent to a client or to all of them.
    pub message: ServerMessage,
}

impl View for WsServerPacket {
    type V = ServerMessageV;

    open spec fn view(&self) -> ServerMessageV {
        self.message@
    }
}

} // verus!
