//! Opening a connection: the server first names the new peer, then, asked
//! for it, lists its rooms. Anything else ends the attempt.

use vstd::prelude::*;
use crate::protocol::{ClientMessage, ClientMessageView, RoomInfo, ServerMessage, ServerMessageView};

verus! {

/// How far the opening exchange has come.
#[derive(Debug, PartialEq, Eq)]
pub enum Handshake {
    AwaitingId,
    AwaitingRooms { pid: u128 },
    Ready { pid: u128, rooms: Vec<RoomInfo> },
    Failed,
}

pub enum HandshakeView {
    AwaitingId,
    AwaitingRooms { pid: u128 },
    Ready { pid: u128, rooms: Seq<RoomInfo> },
    Failed,
}

impl View for Handshake {
    type V = HandshakeView;

    open spec fn view(&self) -> HandshakeView {
        match self {
            Handshake::AwaitingId => HandshakeView::AwaitingId,
            Handshake::AwaitingRooms { pid } => HandshakeView::AwaitingRooms { pid: *pid },
            Handshake::Ready { pid, rooms } => HandshakeView::Ready { pid: *pid, rooms: rooms@ },
            Handshake::Failed => HandshakeView::Failed,
        }
    }
}

pub open spec fn opt_view(m: Option<ServerMessage>) -> Option<ServerMessageView> {
    match m {
        Some(msg) => Some(msg@),
        None => None,
    }
}

pub open spec fn request_view(m: Option<ClientMessage>) -> Option<ClientMessageView> {
    match m {
        Some(msg) => Some(msg@),
        None => None,
    }
}

/// One step of the opening exchange for the next reply (`None`: nothing
/// readable came): the stage after it and the request to send, if any.
/// A finished or failed exchange stays as it is.
pub open spec fn handshake_step(h: HandshakeView, reply: Option<ServerMessageView>) -> (
    HandshakeView,
    Option<ClientMessageView>,
) {
    match h {
        HandshakeView::AwaitingId => match reply {
            Some(ServerMessageView::Connected { pid }) => (
                HandshakeView::AwaitingRooms { pid: pid },
                Some(ClientMessageView::ListRoomsReq),
            ),
            _ => (HandshakeView::Failed, None),
        },
        HandshakeView::AwaitingRooms { pid } => match reply {
            Some(ServerMessageView::ListRoomsRes { rooms }) => (
                HandshakeView::Ready { pid: pid, rooms: rooms },
                None,
            ),
            _ => (HandshakeView::Failed, None),
        },
        _ => (h, None),
    }
}

impl Handshake {
    pub fn start() -> (h: Handshake)
        ensures
            h@ == HandshakeView::AwaitingId,
    {
        Handshake::AwaitingId
    }

    pub fn on_reply(self, reply: Option<ServerMessage>) -> (res: (Handshake, Option<ClientMessage>))
        ensures
            (res.0@, request_view(res.1)) == handshake_step(self@, opt_view(reply)),
    {
        match self {
            Handshake::AwaitingId => match reply {
                Some(ServerMessage::Connected { pid }) => (
                    Handshake::AwaitingRooms { pid },
                    Some(ClientMessage::ListRoomsReq),
                ),
                _ => (Handshake::Failed, None),
            },
            Handshake::AwaitingRooms { pid } => match reply {
                Some(ServerMessage::ListRoomsRes { rooms }) => (Handshake::Ready { pid, rooms }, None),
                _ => (Handshake::Failed, None),
            },
            other => (other, None),
        }
    }
}

/// The only way to a finished exchange: the server names the peer, the
/// client asks for the rooms, the server lists them.
pub proof fn lemma_handshake_success(pid: u128, rooms: Seq<RoomInfo>, a: Option<ServerMessageView>, b: Option<ServerMessageView>)
    ensures
        ({
            let (h1, req) = handshake_step(HandshakeView::AwaitingId, a);
            let (h2, _) = handshake_step(h1, b);
            h2 == (HandshakeView::Ready { pid: pid, rooms: rooms }) <==> (a == Some(
                ServerMessageView::Connected { pid: pid },
            ) && b == Some(ServerMessageView::ListRoomsRes { rooms: rooms }))
        }),
        handshake_step(HandshakeView::AwaitingId, a).1 is Some ==> handshake_step(
            HandshakeView::AwaitingId,
            a,
        ).1 == Some(ClientMessageView::ListRoomsReq),
{
}

} // verus!
