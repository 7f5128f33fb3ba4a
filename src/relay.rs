//! The relay server: groups peers into rooms and forwards each voice datagram
//! to the other members of its sender's room.
use crate::bytes::{be32_value, read_be32};
use crate::constants::{KEEPALIVE_SIZE, SSRC_END, SSRC_START};
use crate::random::random_u64_inclusive;
use std::collections::HashMap;
use vstd::prelude::*;

verus! {

broadcast use vstd::std_specs::hash::group_hash_axioms;

/// The address of a peer: an IPv4 address is held as its IPv4-mapped IPv6 form.
#[derive(Clone, Copy, Debug, PartialEq, Eq, Structural)]
pub struct PeerAddr {
    pub ip: u128,
    pub port: u16,
}

/// The kinds of datagram the relay tells apart, by length alone.
#[derive(Clone, Copy, Debug, PartialEq, Eq, Structural)]
pub enum PacketType {
    KeepAlive,
    Rtp,
}

/// A datagram of exactly `KEEPALIVE_SIZE` bytes is a keepalive; any other is voice.
pub fn classify(bytes: &[u8]) -> (r: PacketType)
    ensures
        r == (if bytes@.len() == KEEPALIVE_SIZE {
            PacketType::KeepAlive
        } else {
            PacketType::Rtp
        }),
{
    if bytes.len() == KEEPALIVE_SIZE {
        PacketType::KeepAlive
    } else {
        PacketType::Rtp
    }
}

/// Room sizes that cannot be drawn from.
#[derive(Clone, Copy, Debug, PartialEq, Eq, Structural)]
pub enum RoomConfigError {
    /// The smallest room size is above the largest.
    EmptyRoomRange,
}

/// The state of the relay, as the contracts see it.
pub struct RelayModel {
    pub rooms: Seq<Seq<PeerAddr>>,
    pub room_of: Map<PeerAddr, nat>,
    pub sessions: Map<u32, PeerAddr>,
    pub room_cap: nat,
}

/// The session identifier of a voice datagram, if it is long enough to hold one.
pub open spec fn session_of(data: Seq<u8>) -> Option<u32> {
    if data.len() >= SSRC_END {
        Some(be32_value(data[8], data[9], data[10], data[11]))
    } else {
        None
    }
}

/// The room a voice datagram from `from` lands in: the sender's own, or the
/// newest room for a sender seen for the first time.
pub open spec fn target_room(m: RelayModel, from: PeerAddr) -> nat {
    if m.room_of.contains_key(from) {
        m.room_of[from]
    } else {
        (m.rooms.len() - 1) as nat
    }
}

/// The rooms once `from` is seated: a new sender joins the newest room.
pub open spec fn seated_rooms(m: RelayModel, from: PeerAddr) -> Seq<Seq<PeerAddr>> {
    if m.room_of.contains_key(from) {
        m.rooms
    } else {
        m.rooms.update(m.rooms.len() - 1, m.rooms.last().push(from))
    }
}

/// Whether the newest room has reached the capacity, so that a new room opens.
pub open spec fn splits(m: RelayModel, from: PeerAddr, split_rooms: bool) -> bool {
    split_rooms && seated_rooms(m, from).last().len() >= m.room_cap
}

/// The relay after a voice datagram `data` from `from`, where `next_cap` is the
/// capacity drawn for a room opened now.
pub open spec fn relay_voice(m: RelayModel, from: PeerAddr, data: Seq<u8>, split_rooms: bool, next_cap: nat) -> RelayModel {
    let rooms = seated_rooms(m, from);
    let split = splits(m, from, split_rooms);
    RelayModel {
        rooms: if split { rooms.push(Seq::empty()) } else { rooms },
        room_of: m.room_of.insert(from, target_room(m, from)),
        sessions: match session_of(data) {
            Some(s) => m.sessions.insert(s, from),
            None => m.sessions,
        },
        room_cap: if split { next_cap } else { m.room_cap },
    }
}

/// Whether peer `q` is another than `from`.
pub open spec fn other_than(from: PeerAddr) -> spec_fn(PeerAddr) -> bool {
    |q: PeerAddr| q != from
}

/// Where a voice datagram from `from` goes: every other member of its room.
pub open spec fn voice_destinations(m: RelayModel, from: PeerAddr) -> Seq<PeerAddr> {
    seated_rooms(m, from)[target_room(m, from) as int].filter(other_than(from))
}

/// A peer keeps its room: a voice datagram from anyone leaves every earlier
/// assignment as it was.
pub proof fn lemma_assignment_kept(m: RelayModel, from: PeerAddr, data: Seq<u8>, split_rooms: bool, next_cap: nat, p: PeerAddr)
    requires
        m.room_of.contains_key(p),
    ensures
        relay_voice(m, from, data, split_rooms, next_cap).room_of.contains_key(p),
        relay_voice(m, from, data, split_rooms, next_cap).room_of[p] == m.room_of[p],
{
}

/// The rooms and tables of a relay server.
pub struct RelayServer {
    rooms: Vec<Vec<PeerAddr>>,
    assignments: Vec<(PeerAddr, usize)>,
    room_of: Ghost<Map<PeerAddr, nat>>,
    sessions: HashMap<u32, PeerAddr>,
    room_cap: usize,
    min_room_size: usize,
    max_room_size: usize,
    split_rooms: bool,
}

impl RelayServer {
    pub closed spec fn view(&self) -> RelayModel {
        RelayModel {
            rooms: self.rooms@.map_values(|r: Vec<PeerAddr>| r@),
            room_of: self.room_of@,
            sessions: self.sessions@,
            room_cap: self.room_cap as nat,
        }
    }

    pub closed spec fn min_room(&self) -> nat {
        self.min_room_size as nat
    }

    pub closed spec fn max_room(&self) -> nat {
        self.max_room_size as nat
    }

    pub closed spec fn splitting(&self) -> bool {
        self.split_rooms
    }

    /// There is always a newest room; each peer seen sits in exactly the room
    /// the table gives for it, once; the capacity lies in the configured range.
    pub closed spec fn wf(&self) -> bool {
        &&& self.rooms@.len() >= 1
        &&& self.min_room_size <= self.room_cap <= self.max_room_size
        &&& forall|i: int| 0 <= i < self.assignments@.len() ==> {
            &&& (#[trigger] self.assignments@[i]).1 < self.rooms@.len()
            &&& self.room_of@.contains_key(self.assignments@[i].0)
            &&& self.room_of@[self.assignments@[i].0] == self.assignments@[i].1
        }
        &&& forall|p: PeerAddr| #[trigger] self.room_of@.contains_key(p) ==> exists|i: int|
            0 <= i < self.assignments@.len() && #[trigger] self.assignments@[i].0 == p
        &&& forall|p: PeerAddr| #[trigger] self.room_of@.contains_key(p) ==> self.room_of@[p] < self.rooms@.len()
            && self.rooms@[self.room_of@[p] as int]@.contains(p)
        &&& forall|r: int, j: int| 0 <= r < self.rooms@.len() && 0 <= j < self.rooms@[r]@.len() ==> {
            &&& self.room_of@.contains_key(#[trigger] self.rooms@[r]@[j])
            &&& self.room_of@[self.rooms@[r]@[j]] == r
        }
        &&& forall|r: int, i: int, j: int| 0 <= r < self.rooms@.len() && 0 <= i < j < self.rooms@[r]@.len()
            ==> #[trigger] self.rooms@[r]@[i] != #[trigger] self.rooms@[r]@[j]
    }

    /// A relay with one empty room whose capacity is `room_cap`.
    pub fn with_capacity(min_room_size: usize, max_room_size: usize, split_rooms: bool, room_cap: usize) -> (r: RelayServer)
        requires
            min_room_size <= room_cap <= max_room_size,
        ensures
            r.wf(),
            r@.rooms == seq![Seq::<PeerAddr>::empty()],
            r@.room_of == Map::<PeerAddr, nat>::empty(),
            r@.sessions == Map::<u32, PeerAddr>::empty(),
            r@.room_cap == room_cap,
            r.min_room() == min_room_size,
            r.max_room() == max_room_size,
            r.splitting() == split_rooms,
    {
        let mut rooms: Vec<Vec<PeerAddr>> = Vec::new();
        rooms.push(Vec::new());
        let r = RelayServer {
            rooms,
            assignments: Vec::new(),
            room_of: Ghost(Map::empty()),
            sessions: HashMap::new(),
            room_cap,
            min_room_size,
            max_room_size,
            split_rooms,
        };
        assert(r@.rooms =~= seq![Seq::<PeerAddr>::empty()]);
        r
    }

    /// A relay with one empty room, whose capacity is drawn from
    /// `min_room_size..=max_room_size`; an error when that range is empty.
    pub fn new(min_room_size: usize, max_room_size: usize, split_rooms: bool) -> (r: Result<RelayServer, RoomConfigError>)
        ensures
            min_room_size > max_room_size <==> r is Err,
            r matches Ok(s) ==> {
                &&& s.wf()
                &&& s@.rooms == seq![Seq::<PeerAddr>::empty()]
                &&& s@.room_of == Map::<PeerAddr, nat>::empty()
                &&& s@.sessions == Map::<u32, PeerAddr>::empty()
                &&& min_room_size <= s@.room_cap <= max_room_size
                &&& s.min_room() == min_room_size
                &&& s.max_room() == max_room_size
                &&& s.splitting() == split_rooms
            },
    {
        if min_room_size > max_room_size {
            return Err(RoomConfigError::EmptyRoomRange);
        }
        let cap = random_u64_inclusive(min_room_size as u64, max_room_size as u64) as usize;
        Ok(RelayServer::with_capacity(min_room_size, max_room_size, split_rooms, cap))
    }

    /// The room of `from`, if it has one.
    fn find_room(&self, from: PeerAddr) -> (r: Option<usize>)
        requires
            self.wf(),
        ensures
            self.room_of@.contains_key(from) <==> r is Some,
            r matches Some(i) ==> i == self.room_of@[from] && i < self.rooms@.len(),
    {
        let mut i: usize = 0;
        while i < self.assignments.len()
            invariant
                i <= self.assignments@.len(),
                self.wf(),
                forall|j: int| 0 <= j < i ==> #[trigger] self.assignments@[j].0 != from,
            decreases self.assignments@.len() - i,
        {
            let (p, r) = self.assignments[i];
            assert(self.assignments@[i as int].1 < self.rooms@.len());
            if p == from {
                return Some(r);
            }
            i = i + 1;
        }
        None
    }

    /// Seats a sender seen for the first time in the newest room.
    fn seat(&mut self, from: PeerAddr) -> (r: usize)
        requires
            old(self).wf(),
            !old(self).room_of@.contains_key(from),
        ensures
            final(self).wf(),
            r == old(self).rooms@.len() - 1,
            final(self)@ == (RelayModel {
                rooms: seated_rooms(old(self)@, from),
                room_of: old(self)@.room_of.insert(from, r as nat),
                ..old(self)@
            }),
            final(self).min_room() == old(self).min_room(),
            final(self).max_room() == old(self).max_room(),
            final(self).splitting() == old(self).splitting(),
    {
        let ghost old_rooms = self.rooms@;
        let ghost old_assign = self.assignments@;
        let ghost old_map = self.room_of@;
        let last = self.rooms.len() - 1;
        let mut room = match self.rooms.pop() {
            Some(room) => room,
            None => Vec::new(),
        };
        room.push(from);
        self.rooms.push(room);
        self.assignments.push((from, last));
        self.room_of = Ghost(self.room_of@.insert(from, last as nat));
        assert(self.rooms@ == old_rooms.update(last as int, room));
        assert forall|q: PeerAddr| old_map.contains_key(q) implies q != from by {}
        assert forall|i: int| 0 <= i < self.assignments@.len() implies {
            &&& (#[trigger] self.assignments@[i]).1 < self.rooms@.len()
            &&& self.room_of@.contains_key(self.assignments@[i].0)
            &&& self.room_of@[self.assignments@[i].0] == self.assignments@[i].1
        } by {
            if i < old_assign.len() {
                assert(self.assignments@[i] == old_assign[i]);
                assert(old_map.contains_key(old_assign[i].0));
            }
        }
        assert forall|p: PeerAddr| #[trigger] self.room_of@.contains_key(p) implies exists|i: int|
            0 <= i < self.assignments@.len() && #[trigger] self.assignments@[i].0 == p by {
            if p == from {
                assert(self.assignments@[old_assign.len() as int].0 == p);
            } else {
                let i = choose|i: int| 0 <= i < old_assign.len() && #[trigger] old_assign[i].0 == p;
                assert(self.assignments@[i] == old_assign[i]);
            }
        }
        assert forall|p: PeerAddr| #[trigger] self.room_of@.contains_key(p) implies self.room_of@[p] < self.rooms@.len()
            && self.rooms@[self.room_of@[p] as int]@.contains(p) by {
            if p == from {
                assert(self.rooms@[last as int]@.last() == from);
            } else {
                let r = old_map[p] as int;
                assert(old_rooms[r]@.contains(p));
                if r == last {
                    let j = choose|j: int| 0 <= j < old_rooms[r]@.len() && old_rooms[r]@[j] == p;
                    assert(self.rooms@[r]@[j] == p);
                }
            }
        }
        assert forall|r: int, j: int| 0 <= r < self.rooms@.len() && 0 <= j < self.rooms@[r]@.len() implies {
            &&& self.room_of@.contains_key(#[trigger] self.rooms@[r]@[j])
            &&& self.room_of@[self.rooms@[r]@[j]] == r
        } by {
            if r == last && j == old_rooms[r]@.len() {
            } else {
                assert(self.rooms@[r]@[j] == old_rooms[r]@[j]);
            }
        }
        assert forall|r: int, i: int, j: int| 0 <= r < self.rooms@.len() && 0 <= i < j < self.rooms@[r]@.len()
            implies #[trigger] self.rooms@[r]@[i] != #[trigger] self.rooms@[r]@[j] by {
            assert(self.rooms@[r]@[i] == old_rooms[r]@[i]);
            if !(r == last && j == old_rooms[r]@.len()) {
                assert(self.rooms@[r]@[j] == old_rooms[r]@[j]);
            } else {
                assert(old_map.contains_key(old_rooms[r]@[i]));
            }
        }
        assert(self@.rooms =~= seated_rooms(old(self)@, from));
        last
    }

    /// Opens a new, empty room with capacity `cap`.
    fn open_room(&mut self, cap: usize)
        requires
            old(self).wf(),
            old(self).min_room() <= cap <= old(self).max_room(),
        ensures
            final(self).wf(),
            final(self)@ == (RelayModel {
                rooms: old(self)@.rooms.push(Seq::empty()),
                room_cap: cap as nat,
                ..old(self)@
            }),
            final(self).min_room() == old(self).min_room(),
            final(self).max_room() == old(self).max_room(),
            final(self).splitting() == old(self).splitting(),
    {
        let ghost old_rooms = self.rooms@;
        self.room_cap = cap;
        self.rooms.push(Vec::new());
        assert forall|i: int| 0 <= i < old_rooms.len() implies self.rooms@[i] == old_rooms[i] by {}
        assert forall|p: PeerAddr| #[trigger] self.room_of@.contains_key(p) implies self.room_of@[p] < self.rooms@.len()
            && self.rooms@[self.room_of@[p] as int]@.contains(p) by {
            assert(self.rooms@[self.room_of@[p] as int] == old_rooms[self.room_of@[p] as int]);
        }
        assert forall|r: int, j: int| 0 <= r < self.rooms@.len() && 0 <= j < self.rooms@[r]@.len() implies {
            &&& self.room_of@.contains_key(#[trigger] self.rooms@[r]@[j])
            &&& self.room_of@[self.rooms@[r]@[j]] == r
        } by {
            assert(r < old_rooms.len());
            assert(self.rooms@[r] == old_rooms[r]);
        }
        assert forall|r: int, i: int, j: int| 0 <= r < self.rooms@.len() && 0 <= i < j < self.rooms@[r]@.len()
            implies #[trigger] self.rooms@[r]@[i] != #[trigger] self.rooms@[r]@[j] by {
            assert(r < old_rooms.len());
            assert(self.rooms@[r] == old_rooms[r]);
        }
        assert(self@.rooms =~= old(self)@.rooms.push(Seq::empty()));
        assert(self.rooms@.len() >= 1);
        assert(self.min_room_size <= self.room_cap <= self.max_room_size);
        assert forall|i: int| 0 <= i < self.assignments@.len() implies {
            &&& (#[trigger] self.assignments@[i]).1 < self.rooms@.len()
            &&& self.room_of@.contains_key(self.assignments@[i].0)
            &&& self.room_of@[self.assignments@[i].0] == self.assignments@[i].1
        } by {}
    }

    /// Records `from` as the sender of session `ssrc`.
    fn record_session(&mut self, ssrc: u32, from: PeerAddr)
        requires
            old(self).wf(),
        ensures
            final(self).wf(),
            final(self)@ == (RelayModel { sessions: old(self)@.sessions.insert(ssrc, from), ..old(self)@ }),
            final(self).min_room() == old(self).min_room(),
            final(self).max_room() == old(self).max_room(),
            final(self).splitting() == old(self).splitting(),
    {
        let ghost before = *self;
        let _ = self.sessions.insert(ssrc, from);
        assert(self.rooms == before.rooms && self.assignments == before.assignments);
        assert(self.room_of == before.room_of);
    }

    /// Handles one datagram from `from`, with `next_cap` as the capacity of a room
    /// opened now. A keepalive goes back to its sender and changes nothing. A voice
    /// datagram seats a new sender in the newest room, opens a new room when
    /// splitting is on and the newest room has reached its capacity, records the
    /// sender under its session identifier, and goes to every other member of the
    /// sender's room. Returns the peers the datagram is to be sent to.
    pub fn route_datagram(&mut self, from: PeerAddr, data: &[u8], next_cap: usize) -> (r: Vec<PeerAddr>)
        requires
            old(self).wf(),
            old(self).min_room() <= next_cap <= old(self).max_room(),
        ensures
            final(self).wf(),
            final(self).min_room() == old(self).min_room(),
            final(self).max_room() == old(self).max_room(),
            final(self).splitting() == old(self).splitting(),
            data@.len() == KEEPALIVE_SIZE ==> r@ == seq![from] && final(self)@ == old(self)@,
            data@.len() != KEEPALIVE_SIZE ==> {
                &&& r@ == voice_destinations(old(self)@, from)
                &&& final(self)@ == relay_voice(old(self)@, from, data@, old(self).splitting(), next_cap as nat)
            },
    {
        if let PacketType::KeepAlive = classify(data) {
            let mut back: Vec<PeerAddr> = Vec::new();
            back.push(from);
            assert(back@ =~= seq![from]);
            return back;
        }
        let ghost m0 = self@;
        let r = match self.find_room(from) {
            Some(r) => {
                assert(m0.room_of.insert(from, r as nat) =~= m0.room_of);
                r
            },
            None => self.seat(from),
        };
        assert(self@.rooms == seated_rooms(m0, from));
        assert(self@.room_of == m0.room_of.insert(from, target_room(m0, from)));
        let ghost seated = self@;
        assert(r < self.rooms@.len());
        let last = self.rooms.len() - 1;
        assert(self.rooms@[last as int]@ == seated.rooms.last());
        if self.split_rooms && self.rooms[last].len() >= self.room_cap {
            self.open_room(next_cap);
        }
        if data.len() >= SSRC_END {
            let ssrc = read_be32(data, SSRC_START);
            self.record_session(ssrc, from);
        }
        assert(self@.rooms.len() == self.rooms@.len());
        assert(r < self.rooms@.len());
        let room = &self.rooms[r];
        let ghost members = seated.rooms[r as int];
        assert(self@.rooms[r as int] == members);
        assert(room@ == members);
        let mut out: Vec<PeerAddr> = Vec::new();
        let mut j: usize = 0;
        while j < room.len()
            invariant
                j <= room@.len(),
                room@ == members,
                out@ == members.take(j as int).filter(other_than(from)),
            decreases room@.len() - j,
        {
            proof {
                members.take(j as int).lemma_filter_push(members[j as int], other_than(from));
                assert(members.take(j as int).push(members[j as int]) =~= members.take(j + 1));
            }
            if room[j] != from {
                out.push(room[j]);
            }
            j = j + 1;
        }
        assert(members.take(j as int) =~= members);
        assert(out@ == voice_destinations(m0, from));
        assert(self@ =~= relay_voice(m0, from, data@, self.split_rooms, next_cap as nat));
        out
    }

    /// Handles one datagram from `from` as `route_datagram` does, drawing the
    /// capacity of a room opened now from the configured range.
    pub fn handle_datagram(&mut self, from: PeerAddr, data: &[u8]) -> (r: Vec<PeerAddr>)
        requires
            old(self).wf(),
        ensures
            final(self).wf(),
            final(self).min_room() == old(self).min_room(),
            final(self).max_room() == old(self).max_room(),
            final(self).splitting() == old(self).splitting(),
            data@.len() == KEEPALIVE_SIZE ==> r@ == seq![from] && final(self)@ == old(self)@,
            data@.len() != KEEPALIVE_SIZE ==> exists|c: nat| old(self).min_room() <= c <= old(self).max_room() && {
                &&& r@ == voice_destinations(old(self)@, from)
                &&& final(self)@ == #[trigger] relay_voice(old(self)@, from, data@, old(self).splitting(), c)
            },
    {
        let cap = random_u64_inclusive(self.min_room_size as u64, self.max_room_size as u64) as usize;
        self.route_datagram(from, data, cap)
    }

    /// The number of rooms.
    pub fn room_count(&self) -> (r: usize)
        ensures
            r == self@.rooms.len(),
    {
        self.rooms.len()
    }

    /// The members of room `i`, in the order they joined.
    pub fn room(&self, i: usize) -> (r: Vec<PeerAddr>)
        requires
            i < self@.rooms.len(),
        ensures
            r@ == self@.rooms[i as int],
    {
        self.rooms[i].clone()
    }

    /// The room of `peer`, if it has sent voice.
    pub fn room_of(&self, peer: PeerAddr) -> (r: Option<usize>)
        requires
            self.wf(),
        ensures
            r is Some <==> self@.room_of.contains_key(peer),
            r matches Some(i) ==> i == self@.room_of[peer],
    {
        self.find_room(peer)
    }
}

} // verus!
