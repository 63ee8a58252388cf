//! Messages exchanged between the relay server and the desktop clients.
//! Peer and room identifiers are 128-bit values (the big-endian reading of
//! a UUID's sixteen bytes), which keeps their order and equality intact.

use vstd::prelude::*;

verus! {

/// One line of the room list: a room and how many peers are in it.
#[derive(Clone, Copy, Debug, PartialEq, Eq, Structural)]
pub struct RoomInfo {
    pub rid: u128,
    pub peer_count: usize,
}

/// What a client asks of the server.
#[derive(Debug, PartialEq, Eq)]
pub enum ClientMessage {
    ListRoomsReq,
    JoinRoom { id: u128 },
    Signal { from: u128, to: u128, payload: String },
}

/// What the server tells a client.
#[derive(Debug, PartialEq, Eq)]
pub enum ServerMessage {
    ListRoomsRes { rooms: Vec<RoomInfo> },
    PeerJoined { pid: u128, rid: u128 },
    Connected { pid: u128 },
    PeerLeft { pid: u128, rid: u128 },
    Signal { from: u128, to: u128, payload: String },
}

/// Mathematical model of a [`ClientMessage`].
pub enum ClientMessageView {
    ListRoomsReq,
    JoinRoom { id: u128 },
    Signal { from: u128, to: u128, payload: Seq<char> },
}

/// Mathematical model of a [`ServerMessage`].
pub enum ServerMessageView {
    ListRoomsRes { rooms: Seq<RoomInfo> },
    PeerJoined { pid: u128, rid: u128 },
    Connected { pid: u128 },
    PeerLeft { pid: u128, rid: u128 },
    Signal { from: u128, to: u128, payload: Seq<char> },
}

impl View for ClientMessage {
    type V = ClientMessageView;

    open spec fn view(&self) -> ClientMessageView {
        match self {
            ClientMessage::ListRoomsReq => ClientMessageView::ListRoomsReq,
            ClientMessage::JoinRoom { id } => ClientMessageView::JoinRoom { id: *id },
            ClientMessage::Signal { from, to, payload } => ClientMessageView::Signal {
                from: *from,
                to: *to,
                payload: payload@,
            },
        }
    }
}

impl View for ServerMessage {
    type V = ServerMessageView;

    open spec fn view(&self) -> ServerMessageView {
        match self {
            ServerMessage::ListRoomsRes { rooms } => ServerMessageView::ListRoomsRes { rooms: rooms@ },
            ServerMessage::PeerJoined { pid, rid } => ServerMessageView::PeerJoined {
                pid: *pid,
                rid: *rid,
            },
            ServerMessage::Connected { pid } => ServerMessageView::Connected { pid: *pid },
            ServerMessage::PeerLeft { pid, rid } => ServerMessageView::PeerLeft {
                pid: *pid,
                rid: *rid,
            },
            ServerMessage::Signal { from, to, payload } => ServerMessageView::Signal {
                from: *from,
                to: *to,
                payload: payload@,
            },
        }
    }
}

} // verus!
