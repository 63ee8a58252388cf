use clarity::client::Handshake;
use clarity::protocol::{ClientMessage, RoomInfo, ServerMessage};
use clarity::utility::{Shade, Utility};

#[test]
fn handshake_learns_id_then_rooms() {
    let h = Handshake::start();
    assert_eq!(h, Handshake::AwaitingId);
    let (h, req) = h.on_reply(Some(ServerMessage::Connected { pid: 42 }));
    assert_eq!(h, Handshake::AwaitingRooms { pid: 42 });
    assert_eq!(req, Some(ClientMessage::ListRoomsReq));
    let rooms = vec![RoomInfo { rid: 1, peer_count: 2 }];
    let (h, req) = h.on_reply(Some(ServerMessage::ListRoomsRes { rooms: rooms.clone() }));
    assert_eq!(h, Handshake::Ready { pid: 42, rooms });
    assert_eq!(req, None);
}

#[test]
fn handshake_fails_on_anything_else() {
    let (h, req) = Handshake::start().on_reply(Some(ServerMessage::PeerJoined { pid: 1, rid: 2 }));
    assert_eq!(h, Handshake::Failed);
    assert_eq!(req, None);
    let (h, _) = Handshake::start().on_reply(None);
    assert_eq!(h, Handshake::Failed);
    let (h, _) = Handshake::start().on_reply(Some(ServerMessage::Connected { pid: 7 }));
    let (h, _) = h.on_reply(Some(ServerMessage::Connected { pid: 7 }));
    assert_eq!(h, Handshake::Failed);
}

#[test]
fn palette_values() {
    assert_eq!(Utility::window_background(), Shade { r: 30, g: 30, b: 30, alpha_percent: 70 });
    assert_eq!(Utility::darkest(), Shade { r: 30, g: 30, b: 30, alpha_percent: 100 });
    assert_eq!(Utility::darker(), Shade { r: 37, g: 37, b: 38, alpha_percent: 100 });
    assert_eq!(Utility::dark(), Shade { r: 45, g: 45, b: 48, alpha_percent: 100 });
    assert_eq!(Utility::gray(), Shade { r: 62, g: 62, b: 66, alpha_percent: 100 });
    assert_eq!(Utility::accent(), Shade { r: 0, g: 122, b: 224, alpha_percent: 100 });
}
