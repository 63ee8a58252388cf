use clarity::frontend::{
    message_for_peer_event, message_for_server, mute_button_label, peer_state_label, Effect, Screen,
    UiMessage, UiState,
};
use clarity::peer::{PeerEvent, PeerState, PeerTaskCmd};
use clarity::protocol::{RoomInfo, ServerMessage};

const ME: u128 = 0x100;
const P: u128 = 0x200;
const Q: u128 = 0x300;
const ROOM: u128 = 0x9;

fn connected() -> UiState {
    let mut s = UiState::new();
    assert_eq!(s.update(UiMessage::EnterApp), vec![Effect::ConnectClient]);
    assert_eq!(s.update(UiMessage::ClientCreated(true)), vec![Effect::ReadClientInfo]);
    let rooms = vec![RoomInfo { rid: ROOM, peer_count: 0 }];
    assert!(s.update(UiMessage::UpdateRoomListAndPid(Some((rooms, ME)))).is_empty());
    s
}

#[test]
fn starts_on_the_entry_screen() {
    let s = UiState::new();
    assert_eq!(s.screen, Screen::Enter);
    assert_eq!(s.my_pid, None);
    assert!(s.peers.is_empty() && s.pending_peers.is_empty());
    assert!(!s.is_muted && !s.audio_ready && !s.has_client);
}

#[test]
fn entering_connects_and_learns_rooms() {
    let s = connected();
    assert_eq!(s.screen, Screen::Menu);
    assert_eq!(s.my_pid, Some(ME));
    assert_eq!(s.rooms, vec![RoomInfo { rid: ROOM, peer_count: 0 }]);
}

#[test]
fn failed_connection_keeps_the_menu_empty() {
    let mut s = UiState::new();
    s.update(UiMessage::EnterApp);
    s.update(UiMessage::ClientCreated(false));
    assert!(s.update(UiMessage::UpdateRoomListAndPid(None)).is_empty());
    assert_eq!(s.my_pid, None);
    assert!(!s.has_client);
    assert!(s.rooms.is_empty());
}

#[test]
fn joining_starts_audio_first() {
    let mut s = connected();
    assert_eq!(s.update(UiMessage::JoinRoom(ROOM)), vec![Effect::StartAudioAndJoin(ROOM)]);
}

#[test]
fn early_arrivals_wait_for_audio() {
    let mut s = connected();
    assert!(s.update(UiMessage::PeerJoined { pid: P, rid: ROOM }).is_empty());
    assert!(s.update(UiMessage::PeerJoined { pid: Q, rid: ROOM }).is_empty());
    assert_eq!(s.pending_peers, vec![P, Q]);
    let effects = s.update(UiMessage::RoomJoined { rid: ROOM, audio_ready: true });
    assert_eq!(
        effects,
        vec![
            Effect::SpawnPeer { local: ME, remote: P },
            Effect::SpawnPeer { local: ME, remote: Q },
        ]
    );
    assert!(s.pending_peers.is_empty());
    assert_eq!(s.peers.get(&P), Some(&PeerState::Connecting));
    assert_eq!(s.peers.get(&Q), Some(&PeerState::Connecting));
    assert_eq!(s.screen, Screen::Room);
    assert_eq!(s.current_room, ROOM);
}

#[test]
fn without_audio_arrivals_keep_waiting() {
    let mut s = connected();
    s.update(UiMessage::PeerJoined { pid: P, rid: ROOM });
    assert!(s.update(UiMessage::RoomJoined { rid: ROOM, audio_ready: false }).is_empty());
    assert_eq!(s.pending_peers, vec![P]);
    let effects = s.update(UiMessage::AudioCaptureReady);
    assert_eq!(effects, vec![Effect::SpawnPeer { local: ME, remote: P }]);
    assert!(s.pending_peers.is_empty());
}

#[test]
fn arrivals_after_audio_get_a_link_at_once() {
    let mut s = connected();
    s.update(UiMessage::RoomJoined { rid: ROOM, audio_ready: true });
    let effects = s.update(UiMessage::PeerJoined { pid: P, rid: ROOM });
    assert_eq!(effects, vec![Effect::SpawnPeer { local: ME, remote: P }]);
}

#[test]
fn link_state_follows_reports() {
    let mut s = connected();
    s.update(UiMessage::RoomJoined { rid: ROOM, audio_ready: true });
    s.update(UiMessage::PeerJoined { pid: P, rid: ROOM });
    s.update(UiMessage::PeerConnected(P));
    assert_eq!(s.peers.get(&P), Some(&PeerState::Connected));
    s.update(UiMessage::PeerConnectionFailed(P));
    assert_eq!(s.peers.get(&P), Some(&PeerState::Failed));
    s.update(UiMessage::PeerConnected(Q));
    assert!(!s.peers.contains_key(&Q));
}

#[test]
fn departures_shut_the_link_down() {
    let mut s = connected();
    s.update(UiMessage::RoomJoined { rid: ROOM, audio_ready: true });
    s.update(UiMessage::PeerJoined { pid: P, rid: ROOM });
    assert_eq!(s.update(UiMessage::PeerLeft { pid: P, rid: ROOM }), vec![Effect::ShutdownPeer(P)]);
    assert!(s.peers.is_empty());
    assert!(s.update(UiMessage::PeerLeft { pid: P, rid: ROOM }).is_empty());
}

#[test]
fn signals_go_to_known_links_only() {
    let mut s = connected();
    s.update(UiMessage::RoomJoined { rid: ROOM, audio_ready: true });
    s.update(UiMessage::PeerJoined { pid: P, rid: ROOM });
    let effects = s.update(UiMessage::Signal { from: P, to: ME, payload: "sdp".to_string() });
    assert_eq!(
        effects,
        vec![Effect::SendToPeer { pid: P, cmd: PeerTaskCmd::RemoteSignal("sdp".to_string()) }]
    );
    assert!(s.update(UiMessage::Signal { from: Q, to: ME, payload: "sdp".to_string() }).is_empty());
}

#[test]
fn own_descriptions_are_sent_through_the_server() {
    let mut s = connected();
    let effects = s.update(UiMessage::PeerSdpReady { pid: P, sdp: "offer".to_string() });
    assert_eq!(effects, vec![Effect::SendSignal { from: ME, to: P, payload: "offer".to_string() }]);
    let mut fresh = UiState::new();
    assert!(fresh.update(UiMessage::PeerSdpReady { pid: P, sdp: "offer".to_string() }).is_empty());
}

#[test]
fn muting_twice_restores() {
    let mut s = connected();
    assert_eq!(s.update(UiMessage::ToggleMute), vec![Effect::MuteAllPeers(true)]);
    assert!(s.is_muted);
    assert_eq!(s.update(UiMessage::ToggleMute), vec![Effect::MuteAllPeers(false)]);
    assert!(!s.is_muted);
}

#[test]
fn leaving_resets_the_call() {
    let mut s = connected();
    s.update(UiMessage::PeerJoined { pid: Q, rid: ROOM });
    s.update(UiMessage::RoomJoined { rid: ROOM, audio_ready: true });
    s.update(UiMessage::PeerJoined { pid: P, rid: ROOM });
    let effects = s.update(UiMessage::LeaveRoom);
    assert_eq!(effects, vec![Effect::ShutdownAllPeers, Effect::DropAudio]);
    assert!(s.peers.is_empty() && s.pending_peers.is_empty());
    assert!(!s.audio_ready);
    assert_eq!(s.screen, Screen::Menu);
}

#[test]
fn closing_closes_the_connection_then_quits() {
    let mut s = connected();
    assert_eq!(s.update(UiMessage::CloseApp), vec![Effect::CloseClient]);
    assert_eq!(s.update(UiMessage::Quit), vec![Effect::Exit]);
    assert!(s.update(UiMessage::Noop).is_empty());
    assert!(s.update(UiMessage::EnterRoom(ROOM)).is_empty());
}

#[test]
fn server_notices_become_screen_messages() {
    assert_eq!(
        message_for_server(ServerMessage::PeerJoined { pid: P, rid: ROOM }),
        Some(UiMessage::PeerJoined { pid: P, rid: ROOM })
    );
    assert_eq!(
        message_for_server(ServerMessage::PeerLeft { pid: P, rid: ROOM }),
        Some(UiMessage::PeerLeft { pid: P, rid: ROOM })
    );
    assert_eq!(
        message_for_server(ServerMessage::Signal { from: P, to: ME, payload: "x".to_string() }),
        Some(UiMessage::Signal { from: P, to: ME, payload: "x".to_string() })
    );
    assert_eq!(message_for_server(ServerMessage::Connected { pid: ME }), None);
    assert_eq!(message_for_server(ServerMessage::ListRoomsRes { rooms: vec![] }), None);
}

#[test]
fn link_reports_become_screen_messages() {
    assert_eq!(message_for_peer_event(P, PeerEvent::Connected), UiMessage::PeerConnected(P));
    assert_eq!(message_for_peer_event(P, PeerEvent::Disconnected), UiMessage::PeerConnectionFailed(P));
    assert_eq!(
        message_for_peer_event(P, PeerEvent::SdpReady("a".to_string())),
        UiMessage::PeerSdpReady { pid: P, sdp: "a".to_string() }
    );
}

#[test]
fn labels_follow_state() {
    assert_eq!(peer_state_label(PeerState::Connecting), "connecting…");
    assert_eq!(peer_state_label(PeerState::Connected), "● connected");
    assert_eq!(peer_state_label(PeerState::Failed), "✕ failed");
    assert_eq!(mute_button_label(false), "Mute");
    assert_eq!(mute_button_label(true), "Unmute");
}

#[test]
fn server_notices_are_heard_once_connected_and_known() {
    let mut s = UiState::new();
    assert!(!s.listens_to_server());
    s.update(UiMessage::ClientCreated(true));
    assert!(!s.listens_to_server());
    s.update(UiMessage::UpdateRoomListAndPid(Some((vec![], ME))));
    assert!(s.listens_to_server());
}
