//! The desktop client's screen state and how it answers each message: which
//! screen shows, which peers have a link task, which wait for audio, and what
//! outside work (connecting, spawning link tasks, sending) is to be done.

use vstd::prelude::*;
use std::collections::HashMap;
use crate::peer::{PeerEvent, PeerState, PeerTaskCmd, PeerTaskCmdView};
use crate::protocol::{RoomInfo, ServerMessage, ServerMessageView};

verus! {

broadcast use vstd::std_specs::hash::group_hash_axioms;

#[derive(Clone, Copy, Debug, PartialEq, Eq, Structural)]
pub enum Screen {
    Enter,
    Menu,
    Room,
}

/// What the client shows and tracks. The connection, the audio sender and
/// the link tasks' channels are held beside it by the caller, keyed like
/// `peers`.
pub struct UiState {
    pub screen: Screen,
    pub my_pid: Option<u128>,
    pub has_client: bool,
    pub rooms: Vec<RoomInfo>,
    pub current_room: u128,
    pub peers: HashMap<u128, PeerState>,
    pub pending_peers: Vec<u128>,
    pub is_muted: bool,
    pub audio_ready: bool,
}

pub struct UiView {
    pub screen: Screen,
    pub my_pid: Option<u128>,
    pub has_client: bool,
    pub rooms: Seq<RoomInfo>,
    pub current_room: u128,
    pub peers: Map<u128, PeerState>,
    pub pending_peers: Seq<u128>,
    pub is_muted: bool,
    pub audio_ready: bool,
}

impl View for UiState {
    type V = UiView;

    open spec fn view(&self) -> UiView {
        UiView {
            screen: self.screen,
            my_pid: self.my_pid,
            has_client: self.has_client,
            rooms: self.rooms@,
            current_room: self.current_room,
            peers: self.peers@,
            pending_peers: self.pending_peers@,
            is_muted: self.is_muted,
            audio_ready: self.audio_ready,
        }
    }
}

/// Everything the client reacts to: the user's clicks, results of outside
/// work, server notices and reports of the link tasks.
#[derive(Debug, PartialEq, Eq)]
pub enum UiMessage {
    EnterApp,
    ClientCreated(bool),
    UpdateRoomListAndPid(Option<(Vec<RoomInfo>, u128)>),
    JoinRoom(u128),
    EnterRoom(u128),
    RoomJoined { rid: u128, audio_ready: bool },
    PeerJoined { pid: u128, rid: u128 },
    PeerLeft { pid: u128, rid: u128 },
    Signal { from: u128, to: u128, payload: String },
    AudioCaptureReady,
    PeerConnected(u128),
    PeerConnectionFailed(u128),
    PeerSdpReady { pid: u128, sdp: String },
    ToggleMute,
    LeaveRoom,
    Noop,
    CloseApp,
    Quit,
}

pub enum UiMessageView {
    EnterApp,
    ClientCreated(bool),
    UpdateRoomListAndPid(Option<(Seq<RoomInfo>, u128)>),
    JoinRoom(u128),
    EnterRoom(u128),
    RoomJoined { rid: u128, audio_ready: bool },
    PeerJoined { pid: u128, rid: u128 },
    PeerLeft { pid: u128, rid: u128 },
    Signal { from: u128, to: u128, payload: Seq<char> },
    AudioCaptureReady,
    PeerConnected(u128),
    PeerConnectionFailed(u128),
    PeerSdpReady { pid: u128, sdp: Seq<char> },
    ToggleMute,
    LeaveRoom,
    Noop,
    CloseApp,
    Quit,
}

impl View for UiMessage {
    type V = UiMessageView;

    open spec fn view(&self) -> UiMessageView {
        match self {
            UiMessage::EnterApp => UiMessageView::EnterApp,
            UiMessage::ClientCreated(ok) => UiMessageView::ClientCreated(*ok),
            UiMessage::UpdateRoomListAndPid(info) => UiMessageView::UpdateRoomListAndPid(
                match info {
                    Some((rooms, pid)) => Some((rooms@, *pid)),
                    None => None,
                },
            ),
            UiMessage::JoinRoom(rid) => UiMessageView::JoinRoom(*rid),
            UiMessage::EnterRoom(rid) => UiMessageView::EnterRoom(*rid),
            UiMessage::RoomJoined { rid, audio_ready } => UiMessageView::RoomJoined {
                rid: *rid,
                audio_ready: *audio_ready,
            },
            UiMessage::PeerJoined { pid, rid } => UiMessageView::PeerJoined { pid: *pid, rid: *rid },
            UiMessage::PeerLeft { pid, rid } => UiMessageView::PeerLeft { pid: *pid, rid: *rid },
            UiMessage::Signal { from, to, payload } => UiMessageView::Signal {
                from: *from,
                to: *to,
                payload: payload@,
            },
            UiMessage::AudioCaptureReady => UiMessageView::AudioCaptureReady,
            UiMessage::PeerConnected(pid) => UiMessageView::PeerConnected(*pid),
            UiMessage::PeerConnectionFailed(pid) => UiMessageView::PeerConnectionFailed(*pid),
            UiMessage::PeerSdpReady { pid, sdp } => UiMessageView::PeerSdpReady {
                pid: *pid,
                sdp: sdp@,
            },
            UiMessage::ToggleMute => UiMessageView::ToggleMute,
            UiMessage::LeaveRoom => UiMessageView::LeaveRoom,
            UiMessage::Noop => UiMessageView::Noop,
            UiMessage::CloseApp => UiMessageView::CloseApp,
            UiMessage::Quit => UiMessageView::Quit,
        }
    }
}

/// Outside work the caller is to carry out.
#[derive(Debug, PartialEq, Eq)]
pub enum Effect {
    /// Connect to the server; report with `ClientCreated`.
    ConnectClient,
    /// Read the room list and own identifier from the connection; report
    /// with `UpdateRoomListAndPid`.
    ReadClientInfo,
    /// Start audio capture, ask the server to join the room; report with
    /// `RoomJoined`.
    StartAudioAndJoin(u128),
    /// Start a link task from `local` to `remote`, replacing any task for
    /// `remote`.
    SpawnPeer { local: u128, remote: u128 },
    /// Pass a command to the link task of `pid`.
    SendToPeer { pid: u128, cmd: PeerTaskCmd },
    /// Shut the link task of `pid` down and forget it.
    ShutdownPeer(u128),
    /// Tell every link task the new mute setting.
    MuteAllPeers(bool),
    /// Shut every link task down and forget them.
    ShutdownAllPeers,
    /// Let go of the audio capture.
    DropAudio,
    /// Send a signal through the server.
    SendSignal { from: u128, to: u128, payload: String },
    /// Close the connection; report with `Quit`.
    CloseClient,
    /// End the program.
    Exit,
}

pub enum EffectView {
    ConnectClient,
    ReadClientInfo,
    StartAudioAndJoin(u128),
    SpawnPeer { local: u128, remote: u128 },
    SendToPeer { pid: u128, cmd: PeerTaskCmdView },
    ShutdownPeer(u128),
    MuteAllPeers(bool),
    ShutdownAllPeers,
    DropAudio,
    SendSignal { from: u128, to: u128, payload: Seq<char> },
    CloseClient,
    Exit,
}

impl View for Effect {
    type V = EffectView;

    open spec fn view(&self) -> EffectView {
        match self {
            Effect::ConnectClient => EffectView::ConnectClient,
            Effect::ReadClientInfo => EffectView::ReadClientInfo,
            Effect::StartAudioAndJoin(rid) => EffectView::StartAudioAndJoin(*rid),
            Effect::SpawnPeer { local, remote } => EffectView::SpawnPeer { local: *local, remote: *remote },
            Effect::SendToPeer { pid, cmd } => EffectView::SendToPeer { pid: *pid, cmd: cmd@ },
            Effect::ShutdownPeer(pid) => EffectView::ShutdownPeer(*pid),
            Effect::MuteAllPeers(m) => EffectView::MuteAllPeers(*m),
            Effect::ShutdownAllPeers => EffectView::ShutdownAllPeers,
            Effect::DropAudio => EffectView::DropAudio,
            Effect::SendSignal { from, to, payload } => EffectView::SendSignal {
                from: *from,
                to: *to,
                payload: payload@,
            },
            Effect::CloseClient => EffectView::CloseClient,
            Effect::Exit => EffectView::Exit,
        }
    }
}

pub open spec fn effect_views(effects: Seq<Effect>) -> Seq<EffectView> {
    effects.map_values(|e: Effect| e@)
}

/// The peers after every waiting peer got a fresh link, in order.
pub open spec fn admit_all(peers: Map<u128, PeerState>, waiting: Seq<u128>) -> Map<u128, PeerState>
    decreases waiting.len(),
{
    if waiting.len() == 0 {
        peers
    } else {
        admit_all(peers, waiting.drop_last()).insert(waiting.last(), PeerState::Connecting)
    }
}

pub open spec fn spawns(local: u128, waiting: Seq<u128>) -> Seq<EffectView> {
    waiting.map_values(|p: u128| EffectView::SpawnPeer { local: local, remote: p })
}

/// Once the own identifier is known and audio is ready, the peers that had
/// to wait get their links.
pub open spec fn drained(s: UiView) -> (UiView, Seq<EffectView>) {
    if s.my_pid is Some && s.audio_ready {
        (
            UiView { peers: admit_all(s.peers, s.pending_peers), pending_peers: Seq::empty(), ..s },
            spawns(s.my_pid->0, s.pending_peers),
        )
    } else {
        (s, Seq::empty())
    }
}

/// The client's answer to one message: the state after it and the outside
/// work to do, in order.
pub open spec fn transition(s: UiView, m: UiMessageView) -> (UiView, Seq<EffectView>) {
    match m {
        UiMessageView::EnterApp => (UiView { screen: Screen::Menu, ..s }, seq![EffectView::ConnectClient]),
        UiMessageView::ClientCreated(ok) => (
            UiView { has_client: ok, ..s },
            seq![EffectView::ReadClientInfo],
        ),
        UiMessageView::UpdateRoomListAndPid(info) => match info {
            Some((rooms, pid)) => (UiView { rooms: rooms, my_pid: Some(pid), ..s }, Seq::empty()),
            None => (s, Seq::empty()),
        },
        UiMessageView::JoinRoom(rid) => (s, seq![EffectView::StartAudioAndJoin(rid)]),
        UiMessageView::EnterRoom(_) => (s, Seq::empty()),
        UiMessageView::RoomJoined { rid, audio_ready } => drained(
            UiView { audio_ready: audio_ready, current_room: rid, screen: Screen::Room, ..s },
        ),
        UiMessageView::PeerJoined { pid, rid: _ } => if s.my_pid is Some && s.audio_ready {
            (
                UiView { peers: s.peers.insert(pid, PeerState::Connecting), ..s },
                seq![EffectView::SpawnPeer { local: s.my_pid->0, remote: pid }],
            )
        } else {
            (UiView { pending_peers: s.pending_peers.push(pid), ..s }, Seq::empty())
        },
        UiMessageView::PeerLeft { pid, rid: _ } => if s.peers.contains_key(pid) {
            (UiView { peers: s.peers.remove(pid), ..s }, seq![EffectView::ShutdownPeer(pid)])
        } else {
            (s, Seq::empty())
        },
        UiMessageView::Signal { from, to: _, payload } => if s.peers.contains_key(from) {
            (
                s,
                seq![
                    EffectView::SendToPeer {
                        pid: from,
                        cmd: PeerTaskCmdView::RemoteSignal(payload),
                    },
                ],
            )
        } else {
            (s, Seq::empty())
        },
        UiMessageView::AudioCaptureReady => drained(UiView { audio_ready: true, ..s }),
        UiMessageView::PeerConnected(pid) => if s.peers.contains_key(pid) {
            (UiView { peers: s.peers.insert(pid, PeerState::Connected), ..s }, Seq::empty())
        } else {
            (s, Seq::empty())
        },
        UiMessageView::PeerConnectionFailed(pid) => if s.peers.contains_key(pid) {
            (UiView { peers: s.peers.insert(pid, PeerState::Failed), ..s }, Seq::empty())
        } else {
            (s, Seq::empty())
        },
        UiMessageView::PeerSdpReady { pid, sdp } => if s.has_client && s.my_pid is Some {
            (s, seq![EffectView::SendSignal { from: s.my_pid->0, to: pid, payload: sdp }])
        } else {
            (s, Seq::empty())
        },
        UiMessageView::ToggleMute => (
            UiView { is_muted: !s.is_muted, ..s },
            seq![EffectView::MuteAllPeers(!s.is_muted)],
        ),
        UiMessageView::LeaveRoom => (
            UiView {
                peers: Map::empty(),
                pending_peers: Seq::empty(),
                audio_ready: false,
                screen: Screen::Menu,
                ..s
            },
            seq![EffectView::ShutdownAllPeers, EffectView::DropAudio],
        ),
        UiMessageView::Noop => (s, Seq::empty()),
        UiMessageView::CloseApp => (s, seq![EffectView::CloseClient]),
        UiMessageView::Quit => (s, seq![EffectView::Exit]),
    }
}

fn single(e: Effect) -> (v: Vec<Effect>)
    ensures
        effect_views(v@) == seq![e@],
{
    let mut v: Vec<Effect> = Vec::new();
    v.push(e);
    assert(effect_views(v@) =~= seq![e@]);
    v
}

fn none() -> (v: Vec<Effect>)
    ensures
        effect_views(v@) == Seq::<EffectView>::empty(),
{
    let v: Vec<Effect> = Vec::new();
    assert(effect_views(v@) =~= Seq::<EffectView>::empty());
    v
}

impl UiState {
    /// The state at start-up: the entry screen, not connected, no rooms and
    /// no peers, unmuted.
    pub fn new() -> (s: UiState)
        ensures
            s@ == (UiView {
                screen: Screen::Enter,
                my_pid: None,
                has_client: false,
                rooms: Seq::empty(),
                current_room: 0,
                peers: Map::empty(),
                pending_peers: Seq::empty(),
                is_muted: false,
                audio_ready: false,
            }),
    {
        UiState {
            screen: Screen::Enter,
            my_pid: None,
            has_client: false,
            rooms: Vec::new(),
            current_room: 0,
            peers: HashMap::new(),
            pending_peers: Vec::new(),
            is_muted: false,
            audio_ready: false,
        }
    }

    /// The server's notices are listened to once the connection stands and
    /// the own identifier is known.
    pub fn listens_to_server(&self) -> (r: bool)
        ensures
            r == (self.has_client && self.my_pid is Some),
    {
        self.has_client && self.my_pid.is_some()
    }

    fn drain_pending(&mut self) -> (effects: Vec<Effect>)
        ensures
            (final(self)@, effect_views(effects@)) == drained(old(self)@),
    {
        let ghost start = self@;
        match self.my_pid {
            Some(me) => {
                if self.audio_ready {
                    let n = self.pending_peers.len();
                    let mut effects: Vec<Effect> = Vec::new();
                    let mut k: usize = 0;
                    while k < n
                        invariant
                            n == start.pending_peers.len(),
                            start.my_pid == Some(me),
                            k <= n,
                            self@ == (UiView { peers: self@.peers, ..start }),
                            self@.peers == admit_all(start.peers, start.pending_peers.take(k as int)),
                            effects@.len() == k,
                            forall|j: int|
                                0 <= j < k ==> (#[trigger] effects@[j])@ == (EffectView::SpawnPeer {
                                    local: me,
                                    remote: start.pending_peers[j],
                                }),
                        decreases n - k,
                    {
                        let pid = self.pending_peers[k];
                        self.peers.insert(pid, PeerState::Connecting);
                        effects.push(Effect::SpawnPeer { local: me, remote: pid });
                        assert(start.pending_peers.take(k + 1).drop_last() =~= start.pending_peers.take(k as int));
                        k = k + 1;
                    }
                    assert(start.pending_peers.take(n as int) =~= start.pending_peers);
                    assert(effect_views(effects@) =~= spawns(me, start.pending_peers));
                    self.pending_peers.clear();
                    effects
                } else {
                    none()
                }
            },
            None => none(),
        }
    }

    /// Answer one message: update the state and return the outside work to
    /// do, in order.
    pub fn update(&mut self, msg: UiMessage) -> (effects: Vec<Effect>)
        ensures
            (final(self)@, effect_views(effects@)) == transition(old(self)@, msg@),
    {
        match msg {
            UiMessage::EnterApp => {
                self.screen = Screen::Menu;
                single(Effect::ConnectClient)
            },
            UiMessage::ClientCreated(ok) => {
                self.has_client = ok;
                single(Effect::ReadClientInfo)
            },
            UiMessage::UpdateRoomListAndPid(info) => {
                match info {
                    Some((rooms, pid)) => {
                        self.rooms = rooms;
                        self.my_pid = Some(pid);
                    },
                    None => {},
                }
                none()
            },
            UiMessage::JoinRoom(rid) => single(Effect::StartAudioAndJoin(rid)),
            UiMessage::EnterRoom(_) => none(),
            UiMessage::RoomJoined { rid, audio_ready } => {
                self.audio_ready = audio_ready;
                self.current_room = rid;
                self.screen = Screen::Room;
                self.drain_pending()
            },
            UiMessage::PeerJoined { pid, rid: _ } => {
                match self.my_pid {
                    Some(me) => {
                        if self.audio_ready {
                            self.peers.insert(pid, PeerState::Connecting);
                            return single(Effect::SpawnPeer { local: me, remote: pid });
                        }
                    },
                    None => {},
                }
                self.pending_peers.push(pid);
                none()
            },
            UiMessage::PeerLeft { pid, rid: _ } => {
                if self.peers.contains_key(&pid) {
                    self.peers.remove(&pid);
                    single(Effect::ShutdownPeer(pid))
                } else {
                    none()
                }
            },
            UiMessage::Signal { from, to: _, payload } => {
                if self.peers.contains_key(&from) {
                    single(Effect::SendToPeer { pid: from, cmd: PeerTaskCmd::RemoteSignal(payload) })
                } else {
                    none()
                }
            },
            UiMessage::AudioCaptureReady => {
                self.audio_ready = true;
                self.drain_pending()
            },
            UiMessage::PeerConnected(pid) => {
                if self.peers.contains_key(&pid) {
                    self.peers.insert(pid, PeerState::Connected);
                }
                none()
            },
            UiMessage::PeerConnectionFailed(pid) => {
                if self.peers.contains_key(&pid) {
                    self.peers.insert(pid, PeerState::Failed);
                }
                none()
            },
            UiMessage::PeerSdpReady { pid, sdp } => {
                if self.has_client {
                    match self.my_pid {
                        Some(me) => {
                            return single(Effect::SendSignal { from: me, to: pid, payload: sdp });
                        },
                        None => {},
                    }
                }
                none()
            },
            UiMessage::ToggleMute => {
                self.is_muted = !self.is_muted;
                single(Effect::MuteAllPeers(self.is_muted))
            },
            UiMessage::LeaveRoom => {
                self.peers.clear();
                self.pending_peers.clear();
                self.audio_ready = false;
                self.screen = Screen::Menu;
                let mut effects: Vec<Effect> = Vec::new();
                effects.push(Effect::ShutdownAllPeers);
                effects.push(Effect::DropAudio);
                assert(effect_views(effects@) =~= seq![EffectView::ShutdownAllPeers, EffectView::DropAudio]);
                effects
            },
            UiMessage::Noop => none(),
            UiMessage::CloseApp => single(Effect::CloseClient),
            UiMessage::Quit => single(Effect::Exit),
        }
    }
}

/// Which server messages the screen acts on once connected: arrivals,
/// departures and signals. The others were handled while connecting.
pub open spec fn server_notice(msg: ServerMessageView) -> Option<UiMessageView> {
    match msg {
        ServerMessageView::PeerJoined { pid, rid } => Some(UiMessageView::PeerJoined { pid: pid, rid: rid }),
        ServerMessageView::PeerLeft { pid, rid } => Some(UiMessageView::PeerLeft { pid: pid, rid: rid }),
        ServerMessageView::Signal { from, to, payload } => Some(
            UiMessageView::Signal { from: from, to: to, payload: payload },
        ),
        _ => None,
    }
}

pub fn message_for_server(msg: ServerMessage) -> (m: Option<UiMessage>)
    ensures
        match m {
            Some(u) => server_notice(msg@) == Some(u@),
            None => server_notice(msg@) is None,
        },
{
    match msg {
        ServerMessage::PeerJoined { pid, rid } => Some(UiMessage::PeerJoined { pid, rid }),
        ServerMessage::PeerLeft { pid, rid } => Some(UiMessage::PeerLeft { pid, rid }),
        ServerMessage::Signal { from, to, payload } => Some(UiMessage::Signal { from, to, payload }),
        _ => None,
    }
}

/// A link task's report as the screen sees it.
pub fn message_for_peer_event(pid: u128, event: PeerEvent) -> (m: UiMessage)
    ensures
        match event {
            PeerEvent::Connected => m@ == UiMessageView::PeerConnected(pid),
            PeerEvent::Disconnected => m@ == UiMessageView::PeerConnectionFailed(pid),
            PeerEvent::SdpReady(sdp) => m@ == (UiMessageView::PeerSdpReady { pid: pid, sdp: sdp@ }),
        },
{
    match event {
        PeerEvent::Connected => UiMessage::PeerConnected(pid),
        PeerEvent::Disconnected => UiMessage::PeerConnectionFailed(pid),
        PeerEvent::SdpReady(sdp) => UiMessage::PeerSdpReady { pid, sdp },
    }
}

/// How a link is shown in the room's peer list.
pub fn peer_state_label(state: PeerState) -> (label: &'static str)
    ensures
        state == PeerState::Connecting ==> label@ == "connecting…"@,
        state == PeerState::Connected ==> label@ == "● connected"@,
        state == PeerState::Failed ==> label@ == "✕ failed"@,
{
    match state {
        PeerState::Connecting => "connecting…",
        PeerState::Connected => "● connected",
        PeerState::Failed => "✕ failed",
    }
}

/// The mute button offers the opposite of the current setting.
pub fn mute_button_label(is_muted: bool) -> (label: &'static str)
    ensures
        is_muted ==> label@ == "Unmute"@,
        !is_muted ==> label@ == "Mute"@,
{
    if is_muted {
        "Unmute"
    } else {
        "Mute"
    }
}

proof fn lemma_admit_all(peers: Map<u128, PeerState>, waiting: Seq<u128>)
    ensures
        forall|i: int|
            0 <= i < waiting.len() ==> admit_all(peers, waiting).contains_key(#[trigger] waiting[i])
                && admit_all(peers, waiting)[waiting[i]] == PeerState::Connecting,
        forall|k: u128|
            #[trigger] admit_all(peers, waiting).contains_key(k) <==> peers.contains_key(k)
                || waiting.contains(k),
        forall|k: u128|
            !waiting.contains(k) && peers.contains_key(k) ==> #[trigger] admit_all(peers, waiting)[k]
                == peers[k],
    decreases waiting.len(),
{
    if waiting.len() > 0 {
        let rest = waiting.drop_last();
        lemma_admit_all(peers, rest);
        assert forall|i: int| 0 <= i < waiting.len() implies admit_all(peers, waiting).contains_key(
            #[trigger] waiting[i],
        ) && admit_all(peers, waiting)[waiting[i]] == PeerState::Connecting by {
            if i < waiting.len() - 1 {
                assert(rest[i] == waiting[i]);
            }
        }
        assert forall|k: u128| #[trigger] admit_all(peers, waiting).contains_key(k) <==> peers.contains_key(k)
            || waiting.contains(k) by {
            if waiting.contains(k) && k != waiting.last() {
                let j = choose|j: int| 0 <= j < waiting.len() && waiting[j] == k;
                assert(rest[j] == k);
            }
            if rest.contains(k) {
                let j = choose|j: int| 0 <= j < rest.len() && rest[j] == k;
                assert(waiting[j] == k);
            }
            assert(waiting[waiting.len() - 1] == waiting.last());
        }
        assert forall|k: u128| !waiting.contains(k) && peers.contains_key(k) implies #[trigger] admit_all(
            peers,
            waiting,
        )[k] == peers[k] by {
            assert(waiting[waiting.len() - 1] == waiting.last());
            if rest.contains(k) {
                let j = choose|j: int| 0 <= j < rest.len() && rest[j] == k;
                assert(waiting[j] == k);
            }
        }
    }
}

/// A peer that has just been given a link task shows as connecting: for
/// every link task that a message starts, the peer is in the state after
/// it, as `Connecting`.
pub proof fn lemma_new_links_start_connecting(s: UiView, m: UiMessageView)
    ensures
        forall|k: int|
            0 <= k < transition(s, m).1.len() && (#[trigger] transition(s, m).1[k]) is SpawnPeer ==> {
                let q = transition(s, m).1[k]->remote;
                &&& transition(s, m).0.peers.contains_key(q)
                &&& transition(s, m).0.peers[q] == PeerState::Connecting
            },
{
    match m {
        UiMessageView::RoomJoined { rid, audio_ready } => {
            let t = UiView { audio_ready: audio_ready, current_room: rid, screen: Screen::Room, ..s };
            lemma_admit_all(t.peers, t.pending_peers);
            assert forall|k: int| 0 <= k < transition(s, m).1.len() && (#[trigger] transition(s, m).1[k]) is SpawnPeer implies {
                let q = transition(s, m).1[k]->remote;
                &&& transition(s, m).0.peers.contains_key(q)
                &&& transition(s, m).0.peers[q] == PeerState::Connecting
            } by {
                assert(transition(s, m).1[k]->remote == t.pending_peers[k]);
            }
        },
        UiMessageView::AudioCaptureReady => {
            let t = UiView { audio_ready: true, ..s };
            lemma_admit_all(t.peers, t.pending_peers);
            assert forall|k: int| 0 <= k < transition(s, m).1.len() && (#[trigger] transition(s, m).1[k]) is SpawnPeer implies {
                let q = transition(s, m).1[k]->remote;
                &&& transition(s, m).0.peers.contains_key(q)
                &&& transition(s, m).0.peers[q] == PeerState::Connecting
            } by {
                assert(transition(s, m).1[k]->remote == t.pending_peers[k]);
            }
        },
        _ => {},
    }
}

/// Only the link's own report makes a peer show as connected: if a peer is
/// `Connected` after a message and was not before, the message was
/// `PeerConnected` for that peer.
pub proof fn lemma_only_reports_connect(s: UiView, m: UiMessageView, q: u128)
    requires
        transition(s, m).0.peers.contains_key(q),
        transition(s, m).0.peers[q] == PeerState::Connected,
        !(s.peers.contains_key(q) && s.peers[q] == PeerState::Connected),
    ensures
        m == UiMessageView::PeerConnected(q),
{
    match m {
        UiMessageView::RoomJoined { .. } => {
            lemma_admit_all(s.peers, s.pending_peers);
        },
        UiMessageView::AudioCaptureReady => {
            lemma_admit_all(s.peers, s.pending_peers);
        },
        _ => {},
    }
}

/// Muting twice gives back the state one started from.
pub proof fn lemma_toggle_mute_twice(s: UiView)
    ensures
        transition(transition(s, UiMessageView::ToggleMute).0, UiMessageView::ToggleMute).0 == s,
{
}

/// No arrival is lost while audio is not ready: once the room is joined
/// with audio, every peer that had to wait (and any that arrives in
/// between) has a fresh link, one link task is started for each, and nobody
/// waits any more. Links that existed stay.
pub proof fn lemma_waiting_peers_get_links(s: UiView, pid: u128, rid: u128, room: u128)
    requires
        s.my_pid is Some,
        !s.audio_ready,
    ensures
        ({
            let waited = transition(s, UiMessageView::PeerJoined { pid: pid, rid: rid }).0;
            let (after, effects) = transition(
                waited,
                UiMessageView::RoomJoined { rid: room, audio_ready: true },
            );
            &&& waited.pending_peers == s.pending_peers.push(pid)
            &&& after.pending_peers.len() == 0
            &&& forall|q: u128|
                #[trigger] waited.pending_peers.contains(q) ==> after.peers.contains_key(q)
                    && after.peers[q] == PeerState::Connecting
                    && effects.contains(EffectView::SpawnPeer { local: s.my_pid->0, remote: q })
            &&& forall|q: u128| #[trigger] s.peers.contains_key(q) ==> after.peers.contains_key(q)
        }),
{
    let waited = transition(s, UiMessageView::PeerJoined { pid: pid, rid: rid }).0;
    let w = waited.pending_peers;
    lemma_admit_all(s.peers, w);
    let (after, effects) = transition(waited, UiMessageView::RoomJoined { rid: room, audio_ready: true });
    assert forall|q: u128| #[trigger] w.contains(q) implies after.peers.contains_key(q)
        && after.peers[q] == PeerState::Connecting
        && effects.contains(EffectView::SpawnPeer { local: s.my_pid->0, remote: q }) by {
        let j = choose|j: int| 0 <= j < w.len() && w[j] == q;
        assert(effects[j] == EffectView::SpawnPeer { local: s.my_pid->0, remote: q });
    }
}

} // verus!


