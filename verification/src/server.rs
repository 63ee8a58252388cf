//! The relay server's room table. A connection is answered by the table's
//! operations with the messages to send and to whom; the connection loop
//! itself (sockets, channels, JSON) stands outside the library.

use vstd::prelude::*;
use crate::identity::{fresh_id, version_variant_bits};
use crate::protocol::{ClientMessage, ClientMessageView, RoomInfo, ServerMessage, ServerMessageView};

verus! {

/// How many rooms the server opens at start-up.
pub const ROOM_COUNT: usize = 5;

/// How many peers a room holds at most; a join to a full room is refused.
pub const MAX_PEERS_PER_ROOM: usize = 5;

/// A message for one peer.
#[derive(Debug, PartialEq, Eq)]
pub struct Outgoing {
    pub to: u128,
    pub msg: ServerMessage,
}

pub struct OutgoingView {
    pub to: u128,
    pub msg: ServerMessageView,
}

impl View for Outgoing {
    type V = OutgoingView;

    open spec fn view(&self) -> OutgoingView {
        OutgoingView { to: self.to, msg: self.msg@ }
    }
}

pub open spec fn views(out: Seq<Outgoing>) -> Seq<OutgoingView> {
    out.map_values(|o: Outgoing| o@)
}

/// A room as the specifications see it: its identifier and the peers in it,
/// in the order in which they joined.
pub struct RoomView {
    pub rid: u128,
    pub peers: Seq<u128>,
}

struct Room {
    rid: u128,
    peers: Vec<u128>,
}

impl View for Room {
    type V = RoomView;

    closed spec fn view(&self) -> RoomView {
        RoomView { rid: self.rid, peers: self.peers@ }
    }
}

/// The server's rooms, in the order in which they were opened.
pub struct Rooms {
    rooms: Vec<Room>,
}

impl View for Rooms {
    type V = Seq<RoomView>;

    closed spec fn view(&self) -> Seq<RoomView> {
        self.rooms@.map_values(|r: Room| r@)
    }
}

pub open spec fn rids(rooms: Seq<RoomView>) -> Seq<u128> {
    rooms.map_values(|r: RoomView| r.rid)
}

/// The first room with identifier `rid`.
pub open spec fn room_index(rooms: Seq<RoomView>, rid: u128) -> Option<int> {
    rids(rooms).index_of_first(rid)
}

pub open spec fn holders(rooms: Seq<RoomView>, pid: u128) -> Seq<bool> {
    rooms.map_values(|r: RoomView| r.peers.contains(pid))
}

/// The first room that holds peer `pid`.
pub open spec fn holder_index(rooms: Seq<RoomView>, pid: u128) -> Option<int> {
    holders(rooms, pid).index_of_first(true)
}

pub open spec fn room_infos(rooms: Seq<RoomView>) -> Seq<RoomInfo> {
    rooms.map_values(|r: RoomView| RoomInfo { rid: r.rid, peer_count: r.peers.len() as usize })
}

/// The same message for each peer of `peers`, in order.
pub open spec fn notices(peers: Seq<u128>, msg: ServerMessageView) -> Seq<OutgoingView> {
    peers.map_values(|p: u128| OutgoingView { to: p, msg: msg })
}

/// The first room of identifier `rid`, when it has room for one more peer.
pub open spec fn open_room(rooms: Seq<RoomView>, rid: u128) -> Option<int> {
    match room_index(rooms, rid) {
        Some(i) => if rooms[i].peers.len() < MAX_PEERS_PER_ROOM {
            Some(i)
        } else {
            None
        },
        None => None,
    }
}

/// The rooms after `pid` asked to join `rid`: it is appended to the first
/// room of that identifier unless that room already holds
/// `MAX_PEERS_PER_ROOM` peers; when there is no such room, or it is full,
/// nothing changes.
pub open spec fn joined(rooms: Seq<RoomView>, pid: u128, rid: u128) -> Seq<RoomView> {
    match open_room(rooms, rid) {
        Some(i) => rooms.update(i, RoomView { rid: rooms[i].rid, peers: rooms[i].peers.push(pid) }),
        None => rooms,
    }
}

/// Who is told of the arrival: every peer already in the joined room; nobody
/// when the join was refused.
pub open spec fn join_notices(rooms: Seq<RoomView>, pid: u128, rid: u128) -> Seq<OutgoingView> {
    match open_room(rooms, rid) {
        Some(i) => notices(rooms[i].peers, ServerMessageView::PeerJoined { pid: pid, rid: rid }),
        None => Seq::empty(),
    }
}

/// The rooms after `pid` disconnected: its first entry in the first room
/// that holds it is taken out.
pub open spec fn left(rooms: Seq<RoomView>, pid: u128) -> Seq<RoomView> {
    match holder_index(rooms, pid) {
        Some(r) => rooms.update(
            r,
            RoomView {
                rid: rooms[r].rid,
                peers: rooms[r].peers.remove(rooms[r].peers.index_of_first(pid).unwrap()),
            },
        ),
        None => rooms,
    }
}

/// Who is told of the departure: the peers that remain in that room.
pub open spec fn leave_notices(rooms: Seq<RoomView>, pid: u128) -> Seq<OutgoingView> {
    match holder_index(rooms, pid) {
        Some(r) => notices(
            left(rooms, pid)[r].peers,
            ServerMessageView::PeerLeft { pid: pid, rid: rooms[r].rid },
        ),
        None => Seq::empty(),
    }
}

/// How often `pid` stands in `peers`.
pub open spec fn count(peers: Seq<u128>, pid: u128) -> nat
    decreases peers.len(),
{
    if peers.len() == 0 {
        0
    } else {
        count(peers.drop_last(), pid) + if peers.last() == pid {
            1nat
        } else {
            0nat
        }
    }
}

/// How often `pid` stands in all rooms together.
pub open spec fn occurrences(rooms: Seq<RoomView>, pid: u128) -> nat
    decreases rooms.len(),
{
    if rooms.len() == 0 {
        0
    } else {
        occurrences(rooms.drop_last(), pid) + count(rooms.last().peers, pid)
    }
}

/// A signal is handed on once for every place in which its addressee stands.
pub open spec fn relay_notices(rooms: Seq<RoomView>, from: u128, to: u128, payload: Seq<char>) -> Seq<
    OutgoingView,
> {
    Seq::new(
        occurrences(rooms, to),
        |k: int|
            OutgoingView {
                to: to,
                msg: ServerMessageView::Signal { from: from, to: to, payload: payload },
            },
    )
}

proof fn lemma_first_index<A>(s: Seq<A>, x: A, i: int)
    requires
        0 <= i < s.len(),
        s[i] == x,
        forall|j: int| 0 <= j < i ==> s[j] != x,
    ensures
        s.index_of_first(x) == Some(i),
{
    s.index_of_first_ensures(x);
    match s.index_of_first(x) {
        Some(k) => {
            if k < i {
                assert(s[k] != x);
            }
        },
        None => {
            assert(s.contains(x));
        },
    }
}

proof fn lemma_no_index<A>(s: Seq<A>, x: A)
    requires
        forall|j: int| 0 <= j < s.len() ==> s[j] != x,
    ensures
        s.index_of_first(x) == None::<int>,
{
    s.index_of_first_ensures(x);
}

/// Position of the first `pid` in `peers`.
fn position(peers: &Vec<u128>, pid: u128) -> (res: Option<usize>)
    ensures
        match res {
            Some(p) => peers@.index_of_first(pid) == Some(p as int) && p < peers@.len()
                && peers@[p as int] == pid && peers@.contains(pid),
            None => peers@.index_of_first(pid) == None::<int> && !peers@.contains(pid),
        },
{
    let n = peers.len();
    let mut p: usize = 0;
    while p < n
        invariant
            n == peers@.len(),
            p <= n,
            forall|j: int| 0 <= j < p ==> peers@[j] != pid,
        decreases n - p,
    {
        if peers[p] == pid {
            proof {
                lemma_first_index(peers@, pid, p as int);
            }
            return Some(p);
        }
        p = p + 1;
    }
    proof {
        lemma_no_index(peers@, pid);
    }
    None
}

/// Whether `x` stands in `ids`.
fn contains(ids: &Vec<u128>, x: u128) -> (r: bool)
    ensures
        r == ids@.contains(x),
{
    let n = ids.len();
    let mut k: usize = 0;
    while k < n
        invariant
            n == ids@.len(),
            k <= n,
            forall|j: int| 0 <= j < k ==> ids@[j] != x,
        decreases n - k,
    {
        if ids[k] == x {
            return true;
        }
        k = k + 1;
    }
    false
}

/// The `c`-th spare identifier: version 4, variant `10`, carrying `c` in
/// its other bits.
pub open spec fn spare(c: usize) -> u128 {
    0x4000_8000_0000_0000_0000u128 | ((c as u128) & 0x3FFF_FFFF_FFFF_FFFFu128) | (((c as u128) >> 62u128) << 64u128)
}

fn spare_at(c: usize) -> (id: u128)
    ensures
        id == spare(c),
        version_variant_bits(id) == 0x4000_8000_0000_0000_0000u128,
{
    let id = 0x4000_8000_0000_0000_0000u128 | ((c as u128) & 0x3FFF_FFFF_FFFF_FFFFu128) | (((c as u128) >> 62u128) << 64u128);
    assert(id & 0xF000_C000_0000_0000_0000u128 == 0x4000_8000_0000_0000_0000u128) by (bit_vector)
        requires
            id == 0x4000_8000_0000_0000_0000u128 | ((c as u128) & 0x3FFF_FFFF_FFFF_FFFFu128) | (((c as u128) >> 62u128) << 64u128),
    ;
    id
}

proof fn lemma_spare_injective(a: usize, b: usize)
    requires
        a != b,
    ensures
        spare(a) != spare(b),
{
    assert(a != b ==> 0x4000_8000_0000_0000_0000u128 | ((a as u128) & 0x3FFF_FFFF_FFFF_FFFFu128) | (((a as u128) >> 62u128) << 64u128)
        != 0x4000_8000_0000_0000_0000u128 | ((b as u128) & 0x3FFF_FFFF_FFFF_FFFFu128) | (((b as u128) >> 62u128) << 64u128)) by (bit_vector);
}

/// More distinct values than a sequence has places cannot all stand in it.
proof fn lemma_pigeonhole(s: Seq<u128>, t: Seq<u128>)
    requires
        t.no_duplicates(),
        forall|i: int| 0 <= i < t.len() ==> s.contains(#[trigger] t[i]),
    ensures
        t.len() <= s.len(),
{
    broadcast use vstd::seq_lib::seq_to_set_is_finite;
    t.unique_seq_to_set();
    s.lemma_cardinality_of_set();
    assert forall|x: u128| t.to_set().contains(x) implies s.to_set().contains(x) by {
        let i = choose|i: int| 0 <= i < t.len() && t[i] == x;
        assert(s.contains(t[i]));
    }
    vstd::set_lib::lemma_len_subset(t.to_set(), s.to_set());
}

/// An identifier with the version and variant bits of a random one that
/// does not stand in `used`: the first spare identifier not yet given out.
/// One exists among the first `used.len() + 1` of them.
fn spare_id(used: &Vec<u128>) -> (id: u128)
    ensures
        !used@.contains(id),
        version_variant_bits(id) == 0x4000_8000_0000_0000_0000u128,
{
    let n = used.len();
    let mut c: usize = 0;
    let ghost mut tried: Seq<u128> = Seq::empty();
    while c <= n
        invariant
            n == used@.len(),
            c <= n + 1,
            tried.len() == c,
            forall|k: int| 0 <= k < c ==> #[trigger] tried[k] == spare(k as usize),
            forall|k: int| 0 <= k < c ==> used@.contains(#[trigger] tried[k]),
            tried.no_duplicates(),
        decreases n + 1 - c,
    {
        let id = spare_at(c);
        if !contains(used, id) {
            return id;
        }
        proof {
            assert forall|k: int| 0 <= k < c implies tried[k] != id by {
                lemma_spare_injective(k as usize, c);
            }
            tried = tried.push(id);
            assert forall|k: int| 0 <= k < tried.len() implies used@.contains(#[trigger] tried[k]) by {
                if k < c {
                    assert(tried[k] == tried.drop_last()[k]);
                }
            }
            lemma_pigeonhole(used@, tried);
        }
        c = c + 1;
    }
    proof {
        lemma_pigeonhole(used@, tried);
    }
    assert(false);
    spare_at(0)
}

impl Rooms {
    /// Empty rooms with the given identifiers, in that order.
    pub fn new(ids: Vec<u128>) -> (r: Rooms)
        ensures
            r@ == ids@.map_values(|rid: u128| RoomView { rid: rid, peers: Seq::empty() }),
    {
        let mut rooms: Vec<Room> = Vec::new();
        let n = ids.len();
        let mut i: usize = 0;
        while i < n
            invariant
                n == ids@.len(),
                i <= n,
                rooms@.len() == i,
                forall|k: int|
                    0 <= k < i ==> (#[trigger] rooms@[k])@ == (RoomView {
                        rid: ids@[k],
                        peers: Seq::empty(),
                    }),
            decreases n - i,
        {
            rooms.push(Room { rid: ids[i], peers: Vec::new() });
            assert(rooms@[i as int]@.peers =~= Seq::<u128>::empty());
            i = i + 1;
        }
        assert(rooms@.map_values(|r: Room| r@) =~= ids@.map_values(
            |rid: u128| RoomView { rid: rid, peers: Seq::empty() },
        ));
        Rooms { rooms }
    }

    /// `n` empty rooms under fresh random identifiers, as the server opens
    /// them at start-up. Every room gets its own draw; should a draw repeat
    /// an identifier already given out, a spare one is taken instead, so no
    /// two rooms share an identifier.
    pub fn with_fresh_ids(n: usize) -> (r: Rooms)
        ensures
            r@.len() == n,
            forall|i: int|
                0 <= i < n ==> (#[trigger] r@[i]).peers == Seq::<u128>::empty()
                    && version_variant_bits(r@[i].rid) == 0x4000_8000_0000_0000_0000u128,
            forall|i: int, j: int| 0 <= i < j < n ==> (#[trigger] r@[i]).rid != (#[trigger] r@[j]).rid,
    {
        let mut rooms: Vec<Room> = Vec::new();
        let mut used: Vec<u128> = Vec::new();
        let mut i: usize = 0;
        while i < n
            invariant
                i <= n,
                rooms@.len() == i,
                used@.len() == i,
                forall|k: int| 0 <= k < i ==> (#[trigger] rooms@[k])@.rid == used@[k],
                used@.no_duplicates(),
                forall|k: int|
                    0 <= k < i ==> (#[trigger] rooms@[k])@.peers == Seq::<u128>::empty()
                        && version_variant_bits(rooms@[k]@.rid) == 0x4000_8000_0000_0000_0000u128,
            decreases n - i,
        {
            let drawn = fresh_id();
            let rid = if contains(&used, drawn) {
                spare_id(&used)
            } else {
                drawn
            };
            rooms.push(Room { rid, peers: Vec::new() });
            used.push(rid);
            i = i + 1;
        }
        let r = Rooms { rooms };
        assert forall|a: int, b: int| 0 <= a < b < n implies (#[trigger] r@[a]).rid != (#[trigger] r@[b]).rid by {
            assert(r@[a].rid == used@[a]);
            assert(r@[b].rid == used@[b]);
        }
        r
    }

    /// The answer to a room-list request: one message to the requester with
    /// every room and its head count.
    pub fn list_rooms(&self, requester: u128) -> (out: Vec<Outgoing>)
        ensures
            views(out@) == seq![
                OutgoingView {
                    to: requester,
                    msg: ServerMessageView::ListRoomsRes { rooms: room_infos(self@) },
                },
            ],
    {
        let n = self.rooms.len();
        let mut infos: Vec<RoomInfo> = Vec::new();
        let mut i: usize = 0;
        while i < n
            invariant
                n == self.rooms@.len(),
                i <= n,
                infos@ == room_infos(self@).take(i as int),
            decreases n - i,
        {
            let info = RoomInfo { rid: self.rooms[i].rid, peer_count: self.rooms[i].peers.len() };
            infos.push(info);
            assert(infos@ =~= room_infos(self@).take(i + 1));
            i = i + 1;
        }
        assert(infos@ =~= room_infos(self@));
        let mut out: Vec<Outgoing> = Vec::new();
        out.push(Outgoing { to: requester, msg: ServerMessage::ListRoomsRes { rooms: infos } });
        assert(views(out@) =~= seq![
            OutgoingView {
                to: requester,
                msg: ServerMessageView::ListRoomsRes { rooms: room_infos(self@) },
            },
        ]);
        out
    }
}

impl Rooms {
    /// Peer `pid` asks to join room `rid`. The peers already in that room
    /// are told, then `pid` is appended to it; an unknown or full room is
    /// ignored.
    pub fn join_room(&mut self, pid: u128, rid: u128) -> (out: Vec<Outgoing>)
        ensures
            final(self)@ == joined(old(self)@, pid, rid),
            views(out@) == join_notices(old(self)@, pid, rid),
    {
        let ghost start = self@;
        let n = self.rooms.len();
        let mut i: usize = 0;
        while i < n
            invariant
                n == self.rooms@.len(),
                self@ == start,
                start == old(self)@,
                i <= n,
                forall|j: int| 0 <= j < i ==> rids(start)[j] != rid,
            decreases n - i,
        {
            if self.rooms[i].rid == rid {
                proof {
                    lemma_first_index(rids(start), rid, i as int);
                }
                if self.rooms[i].peers.len() >= MAX_PEERS_PER_ROOM {
                    let out: Vec<Outgoing> = Vec::new();
                    assert(views(out@) =~= Seq::<OutgoingView>::empty());
                    return out;
                }
                let mut room = self.rooms.remove(i);
                let m = room.peers.len();
                let mut out: Vec<Outgoing> = Vec::new();
                let mut k: usize = 0;
                while k < m
                    invariant
                        m == room.peers@.len(),
                        i < n,
                        start.len() == n,
                        room_index(start, rid) == Some(i as int),
                        room@ == start[i as int],
                        k <= m,
                        out@.len() == k,
                        forall|j: int|
                            0 <= j < k ==> (#[trigger] out@[j])@ == (OutgoingView {
                                to: room.peers@[j],
                                msg: ServerMessageView::PeerJoined { pid: pid, rid: rid },
                            }),
                    decreases m - k,
                {
                    out.push(Outgoing { to: room.peers[k], msg: ServerMessage::PeerJoined { pid, rid } });
                    k = k + 1;
                }
                assert(views(out@) =~= notices(
                    room.peers@,
                    ServerMessageView::PeerJoined { pid: pid, rid: rid },
                ));
                room.peers.push(pid);
                let ghost removed = self.rooms@;
                self.rooms.insert(i, room);
                assert(self@ =~= joined(start, pid, rid)) by {
                    assert(self.rooms@ =~= removed.insert(i as int, room));
                    assert forall|j: int| 0 <= j < n implies #[trigger] self@[j] == joined(start, pid, rid)[j] by {
                        if j < i {
                            assert(self.rooms@[j] == removed[j]);
                        } else if j > i {
                            assert(self.rooms@[j] == removed[j - 1]);
                        }
                    }
                }
                return out;
            }
            i = i + 1;
        }
        proof {
            lemma_no_index(rids(start), rid);
        }
        let out: Vec<Outgoing> = Vec::new();
        assert(views(out@) =~= Seq::<OutgoingView>::empty());
        out
    }
}

/// What the server does for a message from peer `pid`: the rooms after it
/// and the messages it sends.
pub open spec fn on_message(rooms: Seq<RoomView>, pid: u128, msg: ClientMessageView) -> (
    Seq<RoomView>,
    Seq<OutgoingView>,
) {
    match msg {
        ClientMessageView::ListRoomsReq => (
            rooms,
            seq![
                OutgoingView {
                    to: pid,
                    msg: ServerMessageView::ListRoomsRes { rooms: room_infos(rooms) },
                },
            ],
        ),
        ClientMessageView::JoinRoom { id } => (joined(rooms, pid, id), join_notices(rooms, pid, id)),
        ClientMessageView::Signal { from, to, payload } => (
            rooms,
            relay_notices(rooms, from, to, payload),
        ),
    }
}

/// A new connection: it gets a fresh random peer identifier and is told it.
pub fn accept_peer() -> (res: (u128, Outgoing))
    ensures
        res.1@ == (OutgoingView { to: res.0, msg: ServerMessageView::Connected { pid: res.0 } }),
        version_variant_bits(res.0) == 0x4000_8000_0000_0000_0000u128,
{
    let pid = fresh_id();
    (pid, Outgoing { to: pid, msg: ServerMessage::Connected { pid } })
}

impl Rooms {
    /// A signal from `from` to `to` is handed on to every place in which
    /// `to` stands, room by room; nobody else hears of it.
    pub fn relay_signal(&self, from: u128, to: u128, payload: String) -> (out: Vec<Outgoing>)
        ensures
            views(out@) == relay_notices(self@, from, to, payload@),
    {
        let ghost msg = ServerMessageView::Signal { from: from, to: to, payload: payload@ };
        let n = self.rooms.len();
        let mut out: Vec<Outgoing> = Vec::new();
        let mut i: usize = 0;
        while i < n
            invariant
                n == self.rooms@.len(),
                n == self@.len(),
                msg == (ServerMessageView::Signal { from: from, to: to, payload: payload@ }),
                i <= n,
                out@.len() == occurrences(self@.take(i as int), to),
                forall|j: int| 0 <= j < out@.len() ==> (#[trigger] out@[j])@ == (OutgoingView { to: to, msg: msg }),
            decreases n - i,
        {
            let m = self.rooms[i].peers.len();
            let ghost peers = self@[i as int].peers;
            let mut k: usize = 0;
            while k < m
                invariant
                    n == self@.len(),
                    i < n,
                    peers == self@[i as int].peers,
                    m == peers.len(),
                    msg == (ServerMessageView::Signal { from: from, to: to, payload: payload@ }),
                    k <= m,
                    out@.len() == occurrences(self@.take(i as int), to) + count(peers.take(k as int), to),
                    forall|j: int| 0 <= j < out@.len() ==> (#[trigger] out@[j])@ == (OutgoingView { to: to, msg: msg }),
                decreases m - k,
            {
                assert(peers.take(k + 1).drop_last() =~= peers.take(k as int));
                if self.rooms[i].peers[k] == to {
                    out.push(Outgoing { to, msg: ServerMessage::Signal { from, to, payload: payload.clone() } });
                }
                k = k + 1;
            }
            assert(peers.take(m as int) =~= peers);
            assert(self@.take(i + 1).drop_last() =~= self@.take(i as int));
            i = i + 1;
        }
        assert(self@.take(n as int) =~= self@);
        assert(views(out@) =~= relay_notices(self@, from, to, payload@));
        out
    }

    /// Peer `pid` went away: its first entry in the first room that holds
    /// it is taken out and the peers that remain in that room are told.
    pub fn disconnect(&mut self, pid: u128) -> (out: Vec<Outgoing>)
        ensures
            final(self)@ == left(old(self)@, pid),
            views(out@) == leave_notices(old(self)@, pid),
    {
        let ghost start = self@;
        let n = self.rooms.len();
        let mut i: usize = 0;
        while i < n
            invariant
                n == self.rooms@.len(),
                self@ == start,
                start == old(self)@,
                i <= n,
                forall|j: int| 0 <= j < i ==> holders(start, pid)[j] != true,
            decreases n - i,
        {
            match position(&self.rooms[i].peers, pid) {
                Some(p) => {
                    proof {
                        lemma_first_index(holders(start, pid), true, i as int);
                    }
                    let mut room = self.rooms.remove(i);
                    room.peers.remove(p);
                    let rid = room.rid;
                    let m = room.peers.len();
                    let mut out: Vec<Outgoing> = Vec::new();
                    let mut k: usize = 0;
                    while k < m
                        invariant
                            m == room.peers@.len(),
                            k <= m,
                            out@.len() == k,
                            forall|j: int|
                                0 <= j < k ==> (#[trigger] out@[j])@ == (OutgoingView {
                                    to: room.peers@[j],
                                    msg: ServerMessageView::PeerLeft { pid: pid, rid: rid },
                                }),
                        decreases m - k,
                    {
                        out.push(Outgoing { to: room.peers[k], msg: ServerMessage::PeerLeft { pid, rid } });
                        k = k + 1;
                    }
                    let ghost removed = self.rooms@;
                    self.rooms.insert(i, room);
                    assert(self@ =~= left(start, pid)) by {
                        assert(self.rooms@ =~= removed.insert(i as int, room));
                        assert forall|j: int| 0 <= j < n implies #[trigger] self@[j] == left(start, pid)[j] by {
                            if j < i {
                                assert(self.rooms@[j] == removed[j]);
                            } else if j > i {
                                assert(self.rooms@[j] == removed[j - 1]);
                            }
                        }
                    }
                    assert(views(out@) =~= leave_notices(start, pid));
                    return out;
                },
                None => {},
            }
            i = i + 1;
        }
        proof {
            lemma_no_index(holders(start, pid), true);
        }
        let out: Vec<Outgoing> = Vec::new();
        assert(views(out@) =~= Seq::<OutgoingView>::empty());
        out
    }

    /// One message from peer `pid`, answered as the server answers it.
    pub fn handle(&mut self, pid: u128, msg: ClientMessage) -> (out: Vec<Outgoing>)
        ensures
            (final(self)@, views(out@)) == on_message(old(self)@, pid, msg@),
    {
        match msg {
            ClientMessage::ListRoomsReq => self.list_rooms(pid),
            ClientMessage::JoinRoom { id } => self.join_room(pid, id),
            ClientMessage::Signal { from, to, payload } => self.relay_signal(from, to, payload),
        }
    }
}

proof fn lemma_count_push(peers: Seq<u128>, x: u128, pid: u128)
    ensures
        count(peers.push(x), pid) == count(peers, pid) + if x == pid {
            1nat
        } else {
            0nat
        },
{
    assert(peers.push(x).drop_last() =~= peers);
}

proof fn lemma_count_remove(peers: Seq<u128>, k: int, pid: u128)
    requires
        0 <= k < peers.len(),
        peers[k] == pid,
    ensures
        count(peers.remove(k), pid) + 1 == count(peers, pid),
    decreases peers.len(),
{
    if k == peers.len() - 1 {
        assert(peers.remove(k) =~= peers.drop_last());
    } else {
        lemma_count_remove(peers.drop_last(), k, pid);
        assert(peers.remove(k).drop_last() =~= peers.drop_last().remove(k));
    }
}

proof fn lemma_occurrences_update(rooms: Seq<RoomView>, i: int, r: RoomView, pid: u128)
    requires
        0 <= i < rooms.len(),
    ensures
        occurrences(rooms.update(i, r), pid) + count(rooms[i].peers, pid) == occurrences(rooms, pid)
            + count(r.peers, pid),
    decreases rooms.len(),
{
    if i == rooms.len() - 1 {
        assert(rooms.update(i, r).drop_last() =~= rooms.drop_last());
    } else {
        lemma_occurrences_update(rooms.drop_last(), i, r, pid);
        assert(rooms.update(i, r).drop_last() =~= rooms.drop_last().update(i, r));
    }
}

/// Joining a room and then disconnecting undoes the join: when `pid` stands
/// in no room, the rooms come back as they were, and the peers told of its
/// departure are exactly the peers that were told of its arrival.
pub proof fn lemma_join_then_leave_restores(rooms: Seq<RoomView>, pid: u128, rid: u128)
    requires
        forall|i: int| 0 <= i < rooms.len() ==> !(#[trigger] rooms[i]).peers.contains(pid),
    ensures
        left(joined(rooms, pid, rid), pid) == rooms,
        leave_notices(joined(rooms, pid, rid), pid).map_values(|o: OutgoingView| o.to)
            == join_notices(rooms, pid, rid).map_values(|o: OutgoingView| o.to),
{
    rids(rooms).index_of_first_ensures(rid);
    assert forall|j: int| 0 <= j < rooms.len() implies holders(rooms, pid)[j] != true by {}
    lemma_no_index(holders(rooms, pid), true);
    match open_room(rooms, rid) {
        Some(i) => {
            let after = joined(rooms, pid, rid);
            let peers = rooms[i].peers;
            assert(holders(after, pid)[i] == true) by {
                assert(after[i].peers[peers.len() as int] == pid);
            }
            assert forall|j: int| 0 <= j < i implies holders(after, pid)[j] != true by {
                assert(after[j] == rooms[j]);
            }
            lemma_first_index(holders(after, pid), true, i);
            lemma_first_index(after[i].peers, pid, peers.len() as int);
            assert(after[i].peers.remove(peers.len() as int) =~= peers);
            assert(left(after, pid) =~= rooms);
            assert(leave_notices(after, pid).map_values(|o: OutgoingView| o.to) =~= join_notices(
                rooms,
                pid,
                rid,
            ).map_values(|o: OutgoingView| o.to));
        },
        None => {
            assert(leave_notices(rooms, pid).map_values(|o: OutgoingView| o.to) =~= join_notices(
                rooms,
                pid,
                rid,
            ).map_values(|o: OutgoingView| o.to));
        },
    }
}

/// The server's set of rooms never changes: no message and no disconnect
/// opens, closes, renames or reorders a room.
pub proof fn lemma_rooms_are_fixed(rooms: Seq<RoomView>, pid: u128, msg: ClientMessageView)
    ensures
        rids(on_message(rooms, pid, msg).0) == rids(rooms),
        rids(left(rooms, pid)) == rids(rooms),
{
    holders(rooms, pid).index_of_first_ensures(true);
    match msg {
        ClientMessageView::JoinRoom { id } => {
            rids(rooms).index_of_first_ensures(id);
            assert(rids(joined(rooms, pid, id)) =~= rids(rooms));
        },
        _ => {},
    }
    assert(rids(left(rooms, pid)) =~= rids(rooms));
}

/// Once a peer has joined a room that had space, signals addressed to it
/// reach it one time more than before; joining an unknown or full room
/// changes nothing.
pub proof fn lemma_join_makes_reachable(rooms: Seq<RoomView>, pid: u128, rid: u128)
    ensures
        open_room(rooms, rid) is Some ==> occurrences(joined(rooms, pid, rid), pid) == occurrences(
            rooms,
            pid,
        ) + 1,
        open_room(rooms, rid) is None ==> joined(rooms, pid, rid) == rooms,
{
    rids(rooms).index_of_first_ensures(rid);
    if let Some(i) = open_room(rooms, rid) {
        let r = RoomView { rid: rooms[i].rid, peers: rooms[i].peers.push(pid) };
        lemma_occurrences_update(rooms, i, r, pid);
        lemma_count_push(rooms[i].peers, pid, pid);
    }
}

/// A disconnect takes exactly one place of the peer out of the rooms, and
/// none when it stood in no room.
pub proof fn lemma_leave_removes_one(rooms: Seq<RoomView>, pid: u128)
    ensures
        holder_index(rooms, pid) is Some ==> occurrences(left(rooms, pid), pid) + 1 == occurrences(
            rooms,
            pid,
        ),
        holder_index(rooms, pid) is None ==> left(rooms, pid) == rooms,
{
    holders(rooms, pid).index_of_first_ensures(true);
    if let Some(r) = holder_index(rooms, pid) {
        let peers = rooms[r].peers;
        assert(holders(rooms, pid)[r] == true);
        assert(peers.contains(pid));
        peers.index_of_first_ensures(pid);
        let k = peers.index_of_first(pid).unwrap();
        let room = RoomView { rid: rooms[r].rid, peers: peers.remove(k) };
        lemma_occurrences_update(rooms, r, room, pid);
        lemma_count_remove(peers, k, pid);
    }
}

/// A signal is handed only to its addressee, carrying what was sent, and
/// the peer that joins is not told of its own arrival.
pub proof fn lemma_messages_reach_only_their_peers(
    rooms: Seq<RoomView>,
    pid: u128,
    rid: u128,
    from: u128,
    to: u128,
    payload: Seq<char>,
)
    requires
        forall|i: int| 0 <= i < rooms.len() ==> !(#[trigger] rooms[i]).peers.contains(pid),
    ensures
        forall|k: int|
            0 <= k < relay_notices(rooms, from, to, payload).len() ==> (#[trigger] relay_notices(
                rooms,
                from,
                to,
                payload,
            )[k]) == (OutgoingView {
                to: to,
                msg: ServerMessageView::Signal { from: from, to: to, payload: payload },
            }),
        forall|k: int|
            0 <= k < join_notices(rooms, pid, rid).len() ==> (#[trigger] join_notices(
                rooms,
                pid,
                rid,
            )[k]).to != pid,
{
    rids(rooms).index_of_first_ensures(rid);
    if let Some(i) = room_index(rooms, rid) {
        assert forall|k: int| 0 <= k < join_notices(rooms, pid, rid).len() implies (
        #[trigger] join_notices(rooms, pid, rid)[k]).to != pid by {
            assert(join_notices(rooms, pid, rid)[k].to == rooms[i].peers[k]);
            assert(!rooms[i].peers.contains(pid));
        }
    }
}

/// No room ever holds more than `MAX_PEERS_PER_ROOM` peers: if none does
/// before a message or a disconnect, none does after it.
pub proof fn lemma_rooms_stay_within_cap(rooms: Seq<RoomView>, pid: u128, msg: ClientMessageView)
    requires
        forall|i: int| 0 <= i < rooms.len() ==> (#[trigger] rooms[i]).peers.len() <= MAX_PEERS_PER_ROOM,
    ensures
        forall|i: int|
            0 <= i < on_message(rooms, pid, msg).0.len() ==> (#[trigger] on_message(rooms, pid, msg).0[i]).peers.len()
                <= MAX_PEERS_PER_ROOM,
        forall|i: int|
            0 <= i < left(rooms, pid).len() ==> (#[trigger] left(rooms, pid)[i]).peers.len() <= MAX_PEERS_PER_ROOM,
{
    holders(rooms, pid).index_of_first_ensures(true);
    if let ClientMessageView::JoinRoom { id } = msg {
        rids(rooms).index_of_first_ensures(id);
    }
    if let Some(r) = holder_index(rooms, pid) {
        assert(holders(rooms, pid)[r] == true);
        rooms[r].peers.index_of_first_ensures(pid);
    }
}

/// Whenever a join is accepted (the first room named `rid` still has space),
/// the joiner is appended to that room, no other room changes, and exactly
/// the peers already in that room are told, in their order, each that
/// `pid` joined `rid`. This holds whatever other rooms the joiner stands in.
pub proof fn lemma_join_tells_the_room(rooms: Seq<RoomView>, pid: u128, rid: u128, i: int)
    requires
        0 <= i < rooms.len(),
        rooms[i].rid == rid,
        forall|j: int| 0 <= j < i ==> (#[trigger] rooms[j]).rid != rid,
        rooms[i].peers.len() < MAX_PEERS_PER_ROOM,
    ensures
        joined(rooms, pid, rid).len() == rooms.len(),
        joined(rooms, pid, rid)[i].rid == rid,
        joined(rooms, pid, rid)[i].peers == rooms[i].peers.push(pid),
        forall|j: int| 0 <= j < rooms.len() && j != i ==> #[trigger] joined(rooms, pid, rid)[j] == rooms[j],
        join_notices(rooms, pid, rid).len() == rooms[i].peers.len(),
        forall|k: int|
            0 <= k < rooms[i].peers.len() ==> #[trigger] join_notices(rooms, pid, rid)[k] == (OutgoingView {
                to: rooms[i].peers[k],
                msg: ServerMessageView::PeerJoined { pid: pid, rid: rid },
            }),
{
    assert forall|j: int| 0 <= j < i implies rids(rooms)[j] != rid by {
        assert(rooms[j].rid != rid);
    }
    lemma_first_index(rids(rooms), rid, i);
}

/// A join is refused, changing nothing and telling nobody, when no room is
/// named `rid` or the first room so named is full.
pub proof fn lemma_refused_join(rooms: Seq<RoomView>, pid: u128, rid: u128)
    requires
        forall|i: int|
            0 <= i < rooms.len() && (#[trigger] rooms[i]).rid == rid && (forall|j: int|
                0 <= j < i ==> rooms[j].rid != rid) ==> rooms[i].peers.len() >= MAX_PEERS_PER_ROOM,
    ensures
        joined(rooms, pid, rid) == rooms,
        join_notices(rooms, pid, rid).len() == 0,
{
    rids(rooms).index_of_first_ensures(rid);
    if let Some(i) = room_index(rooms, rid) {
        assert(rooms[i].rid == rid);
        assert forall|j: int| 0 <= j < i implies rooms[j].rid != rid by {
            assert(rids(rooms)[j] != rid);
        }
    }
}

} // verus!






