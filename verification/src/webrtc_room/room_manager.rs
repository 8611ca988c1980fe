//! Open rooms and the participants connected to each.

use vstd::prelude::*;
use vstd::string::*;
use dashmap::DashMap;
use tokio::sync::mpsc::UnboundedSender;
use axum::extract::ws::Message;
use crate::channel::{deliveries_to, send_all_recorded, send_recorded, Delivery};
use crate::webrtc_room::models::{Participant, ParticipantInfo, Room, RoomState};
use crate::text::{str_eq, strings_view};
use crate::clock::{now_unix_seconds, MIN_TIMESTAMP, MAX_TIMESTAMP};

verus! {

/// A participant with the channel to its socket.
#[derive(Debug, Clone)]
pub struct ParticipantConnection {
    pub participant: Participant,
    pub sender: UnboundedSender<Message>,
}

/// The rooms of a room table, by id.
pub uninterp spec fn room_table(m: DashMap<String, Room>) -> Map<Seq<char>, Room>;

/// The participants of one room, by participant id.
pub uninterp spec fn member_table(m: DashMap<String, ParticipantConnection>) -> Map<Seq<char>, Participant>;

/// The participants of every room, by room id and participant id.
pub uninterp spec fn room_member_tables(m: DashMap<String, DashMap<String, ParticipantConnection>>)
    -> Map<Seq<char>, Map<Seq<char>, Participant>>;

/// The channel of each participant of one room, by participant id. A sender is known by the
/// channel it feeds: a clone of it stands for the same channel.
pub uninterp spec fn member_channels(m: DashMap<String, ParticipantConnection>) -> Map<Seq<char>, UnboundedSender<Message>>;

/// The channels of the participants of every room, by room id and participant id.
pub uninterp spec fn room_member_channels(m: DashMap<String, DashMap<String, ParticipantConnection>>)
    -> Map<Seq<char>, Map<Seq<char>, UnboundedSender<Message>>>;

/// An empty room table (wraps `DashMap::new`).
#[verifier::external_body]
fn room_table_new() -> (r: DashMap<String, Room>)
    ensures
        room_table(r).dom().is_empty(),
{
    DashMap::new()
}

/// A copy of a room (wraps `DashMap::get`, cloning the room).
#[verifier::external_body]
fn room_table_get(m: &DashMap<String, Room>, room_id: &str) -> (r: Option<Room>)
    ensures
        match r {
            Some(room) => room_table(*m).contains_key(room_id@) && room == room_table(*m)[room_id@],
            None => !room_table(*m).contains_key(room_id@),
        },
{
    m.get(room_id).map(|e| e.value().clone())
}

/// Stores a room (wraps `DashMap::insert`).
#[verifier::external_body]
fn room_table_insert(m: &mut DashMap<String, Room>, room_id: String, room: Room)
    ensures
        room_table(*final(m)) == room_table(*old(m)).insert(room_id@, room),
{
    m.insert(room_id, room);
}

/// Drops a room; whether it was there (wraps `DashMap::remove`).
#[verifier::external_body]
fn room_table_remove(m: &mut DashMap<String, Room>, room_id: &str) -> (r: bool)
    ensures
        room_table(*final(m)) == room_table(*old(m)).remove(room_id@),
        r == room_table(*old(m)).contains_key(room_id@),
{
    m.remove(room_id).is_some()
}

/// The room ids, each once, in no particular order (wraps `DashMap::iter`, taking each key).
#[verifier::external_body]
fn room_table_keys(m: &DashMap<String, Room>) -> (r: Vec<String>)
    ensures
        strings_view(r@).to_set() == room_table(*m).dom(),
        strings_view(r@).no_duplicates(),
{
    m.iter().map(|e| e.key().clone()).collect()
}

/// An empty table of room memberships (wraps `DashMap::new`).
#[verifier::external_body]
fn memberships_new() -> (r: DashMap<String, DashMap<String, ParticipantConnection>>)
    ensures
        room_member_tables(r).dom().is_empty(),
        room_member_channels(r).dom().is_empty(),
{
    DashMap::new()
}

/// A copy of one room's participant table (wraps `DashMap::get`, cloning the inner table; a
/// cloned sender feeds the same channel).
#[verifier::external_body]
fn memberships_get(m: &DashMap<String, DashMap<String, ParticipantConnection>>, room_id: &str)
    -> (r: Option<DashMap<String, ParticipantConnection>>)
    ensures
        match r {
            Some(t) => room_member_tables(*m).contains_key(room_id@)
                && member_table(t) == room_member_tables(*m)[room_id@]
                && room_member_channels(*m).contains_key(room_id@)
                && member_channels(t) == room_member_channels(*m)[room_id@],
            None => !room_member_tables(*m).contains_key(room_id@)
                && !room_member_channels(*m).contains_key(room_id@),
        },
{
    m.get(room_id).map(|e| e.value().clone())
}

/// Stores one room's participant table (wraps `DashMap::insert`).
#[verifier::external_body]
fn memberships_insert(
    m: &mut DashMap<String, DashMap<String, ParticipantConnection>>,
    room_id: String,
    t: DashMap<String, ParticipantConnection>,
)
    ensures
        room_member_tables(*final(m)) == room_member_tables(*old(m)).insert(room_id@, member_table(t)),
        room_member_channels(*final(m)) == room_member_channels(*old(m)).insert(room_id@, member_channels(t)),
{
    m.insert(room_id, t);
}

/// Takes one room's participant table out (wraps `DashMap::remove`).
#[verifier::external_body]
fn memberships_remove(m: &mut DashMap<String, DashMap<String, ParticipantConnection>>, room_id: &str)
    -> (r: Option<DashMap<String, ParticipantConnection>>)
    ensures
        room_member_tables(*final(m)) == room_member_tables(*old(m)).remove(room_id@),
        room_member_channels(*final(m)) == room_member_channels(*old(m)).remove(room_id@),
        match r {
            Some(t) => room_member_tables(*old(m)).contains_key(room_id@)
                && member_table(t) == room_member_tables(*old(m))[room_id@]
                && member_channels(t) == room_member_channels(*old(m))[room_id@],
            None => !room_member_tables(*old(m)).contains_key(room_id@),
        },
{
    m.remove(room_id).map(|(_, t)| t)
}

/// An empty participant table (wraps `DashMap::new`).
#[verifier::external_body]
fn members_new() -> (r: DashMap<String, ParticipantConnection>)
    ensures
        member_table(r).dom().is_empty(),
        member_channels(r).dom().is_empty(),
{
    DashMap::new()
}

/// Adds or replaces a participant (wraps `DashMap::insert`).
#[verifier::external_body]
fn members_insert(t: &mut DashMap<String, ParticipantConnection>, participant_id: String, c: ParticipantConnection)
    ensures
        member_table(*final(t)) == member_table(*old(t)).insert(participant_id@, c.participant),
        member_channels(*final(t)) == member_channels(*old(t)).insert(participant_id@, c.sender),
{
    t.insert(participant_id, c);
}

/// Drops a participant; whether it was there (wraps `DashMap::remove`).
#[verifier::external_body]
fn members_remove(t: &mut DashMap<String, ParticipantConnection>, participant_id: &str) -> (r: bool)
    ensures
        member_table(*final(t)) == member_table(*old(t)).remove(participant_id@),
        member_channels(*final(t)) == member_channels(*old(t)).remove(participant_id@),
        r == member_table(*old(t)).contains_key(participant_id@),
{
    t.remove(participant_id).is_some()
}

/// A copy of a participant's connection (wraps `DashMap::get`, cloning the entry; a cloned
/// sender feeds the same channel).
#[verifier::external_body]
fn members_get(t: &DashMap<String, ParticipantConnection>, participant_id: &str) -> (r: Option<ParticipantConnection>)
    ensures
        match r {
            Some(c) => member_table(*t).contains_key(participant_id@)
                && c.participant == member_table(*t)[participant_id@]
                && member_channels(*t).contains_key(participant_id@)
                && c.sender == member_channels(*t)[participant_id@],
            None => !member_table(*t).contains_key(participant_id@),
        },
{
    t.get(participant_id).map(|e| e.value().clone())
}

/// The number of participants (wraps `DashMap::len`).
#[verifier::external_body]
fn members_len(t: &DashMap<String, ParticipantConnection>) -> (r: usize)
    ensures
        r == member_table(*t).dom().len(),
{
    t.len()
}

/// `v` lists the entries of `t`, each once, keyed by their participant ids.
pub open spec fn lists_members(v: Seq<ParticipantConnection>, t: Map<Seq<char>, Participant>) -> bool {
    &&& v.len() == t.dom().len()
    &&& forall|i: int| 0 <= i < v.len() ==> t.contains_key((#[trigger] v[i]).participant.participant_id@)
            && t[v[i].participant.participant_id@] == v[i].participant
    &&& forall|i: int, j: int| 0 <= i < j < v.len() ==>
            (#[trigger] v[i]).participant.participant_id@ != (#[trigger] v[j]).participant.participant_id@
}

/// `v` lists the entries of `t` as `lists_members` says, each with the channel `ch` holds for it.
pub open spec fn lists_connections(
    v: Seq<ParticipantConnection>,
    t: Map<Seq<char>, Participant>,
    ch: Map<Seq<char>, UnboundedSender<Message>>,
) -> bool {
    &&& lists_members(v, t)
    &&& forall|i: int| 0 <= i < v.len() ==> ch.contains_key((#[trigger] v[i]).participant.participant_id@)
            && v[i].sender == ch[v[i].participant.participant_id@]
}

/// Copies of all the connections of a room, in no particular order (wraps `DashMap::iter`,
/// cloning each entry; a cloned sender feeds the same channel). The table's keys are the
/// participants' own ids.
#[verifier::external_body]
fn members_list(t: &DashMap<String, ParticipantConnection>) -> (r: Vec<ParticipantConnection>)
    ensures
        (member_table(*t).dom().finite()
            && forall|k: Seq<char>| #[trigger] member_table(*t).contains_key(k) ==> member_table(*t)[k].participant_id@ == k)
            ==> lists_members(r@, member_table(*t)),
        (member_table(*t).dom().finite()
            && forall|k: Seq<char>| #[trigger] member_table(*t).contains_key(k) ==> member_table(*t)[k].participant_id@ == k)
            ==> forall|i: int| 0 <= i < r@.len() ==> member_channels(*t).contains_key((#[trigger] r@[i]).participant.participant_id@)
                && r@[i].sender == member_channels(*t)[r@[i].participant.participant_id@],
{
    t.iter().map(|e| e.value().clone()).collect()
}


/// `v` without the connections of participant `id`, the others kept in order.
pub open spec fn drop_participant(v: Seq<ParticipantConnection>, id: Seq<char>) -> Seq<ParticipantConnection>
    decreases v.len(),
{
    if v.len() == 0 {
        v
    } else if v.last().participant.participant_id@ != id {
        drop_participant(v.drop_last(), id).push(v.last())
    } else {
        drop_participant(v.drop_last(), id)
    }
}

/// `v` describes the participants of `t`, each once, in some order.
pub open spec fn lists_infos(v: Seq<ParticipantInfo>, t: Map<Seq<char>, Participant>) -> bool {
    &&& v.len() == t.dom().len()
    &&& forall|i: int| 0 <= i < v.len() ==> t.contains_key((#[trigger] v[i]).id@)
            && t[v[i].id@].display_name@ == v[i].name@ && t[v[i].id@].is_creator == v[i].is_creator
    &&& forall|i: int, j: int| 0 <= i < j < v.len() ==> (#[trigger] v[i]).id@ != (#[trigger] v[j]).id@
}

/// A participant table is finite and keyed by the participants' own ids.
pub open spec fn keyed_by_id(t: Map<Seq<char>, Participant>) -> bool {
    &&& t.dom().finite()
    &&& forall|k: Seq<char>| #[trigger] t.contains_key(k) ==> t[k].participant_id@ == k
}

/// The public descriptions of a list of connections, in the same order.
fn infos_of(list: &Vec<ParticipantConnection>) -> (r: Vec<ParticipantInfo>)
    ensures
        r@.len() == list@.len(),
        forall|i: int| 0 <= i < r@.len() ==> (#[trigger] r@[i]).id@ == list@[i].participant.participant_id@
            && r@[i].name@ == list@[i].participant.display_name@
            && r@[i].is_creator == list@[i].participant.is_creator,
{
    let mut r: Vec<ParticipantInfo> = Vec::new();
    let mut i: usize = 0;
    while i < list.len()
        invariant
            i <= list.len(),
            r@.len() == i,
            forall|k: int| 0 <= k < i ==> (#[trigger] r@[k]).id@ == list@[k].participant.participant_id@
                && r@[k].name@ == list@[k].participant.display_name@
                && r@[k].is_creator == list@[k].participant.is_creator,
        decreases list.len() - i,
    {
        r.push(ParticipantInfo::from(&list[i].participant));
        i = i + 1;
    }
    r
}

/// The channels of a list of connections, in order.
pub open spec fn conn_senders(v: Seq<ParticipantConnection>) -> Seq<UnboundedSender<Message>> {
    v.map_values(|c: ParticipantConnection| c.sender)
}

/// The channels of a list of connections, in order.
fn conn_senders_vec(v: Vec<ParticipantConnection>) -> (r: Vec<UnboundedSender<Message>>)
    ensures
        r@ == conn_senders(v@),
{
    let mut rest = v;
    let ghost all = rest@;
    let mut r: Vec<UnboundedSender<Message>> = Vec::new();
    let mut i: usize = 0;
    let n = rest.len();
    while rest.len() > 0
        invariant
            n == all.len(),
            i + rest.len() == n,
            rest@ == all.skip(i as int),
            r@ == conn_senders(all.take(i as int)),
        decreases rest.len(),
    {
        let ghost before = rest@;
        let c = rest.remove(0);
        assert(rest@ =~= all.skip(i + 1)) by {
            assert(rest@ == before.remove(0));
        }
        assert(before[0] == all[i as int]);
        r.push(c.sender);
        assert(r@ =~= conn_senders(all.take(i + 1)));
        i = i + 1;
    }
    assert(all.take(n as int) =~= all);
    r
}

/// `text` handed to each connection of `v` in order, the i-th with outcome `outcomes[i]`.
pub open spec fn notice_to(v: Seq<ParticipantConnection>, text: Seq<char>, outcomes: Seq<bool>) -> Seq<Delivery> {
    deliveries_to(conn_senders(v), text, outcomes)
}

/// Open rooms and their participants.
pub struct RoomManager {
    rooms: DashMap<String, Room>,
    participants: DashMap<String, DashMap<String, ParticipantConnection>>,
    total_rooms: usize,
    /// Every text handed to a participant's channel so far, in order, with its outcome.
    sent: Ghost<Seq<Delivery>>,
}

impl RoomManager {
    /// The open rooms, by id.
    pub closed spec fn rooms(&self) -> Map<Seq<char>, Room> {
        room_table(self.rooms)
    }

    /// The participants of each open room.
    pub closed spec fn members(&self) -> Map<Seq<char>, Map<Seq<char>, Participant>> {
        room_member_tables(self.participants)
    }

    /// The channel of each participant of each open room.
    pub closed spec fn channels(&self) -> Map<Seq<char>, Map<Seq<char>, UnboundedSender<Message>>> {
        room_member_channels(self.participants)
    }

    /// Every text handed to a participant's channel so far, in order, with whether the channel
    /// took it.
    pub closed spec fn deliveries(&self) -> Seq<Delivery> {
        self.sent@
    }

    /// The room counter.
    pub closed spec fn room_counter(&self) -> usize {
        self.total_rooms
    }

    /// Every open room has a participant table and the other way round; each table is finite,
    /// keyed by participant id, and holds one channel per participant.
    pub open spec fn wf(&self) -> bool {
        &&& self.rooms().dom().finite()
        &&& self.rooms().dom() == self.members().dom()
        &&& self.channels().dom() == self.members().dom()
        &&& forall|r: Seq<char>| #[trigger] self.members().contains_key(r) ==> keyed_by_id(self.members()[r])
                && self.channels()[r].dom() == self.members()[r].dom()
    }

    pub fn new() -> (r: Self)
        ensures
            r.wf(),
            r.rooms() == Map::<Seq<char>, Room>::empty(),
            r.members() == Map::<Seq<char>, Map<Seq<char>, Participant>>::empty(),
            r.room_counter() == 0,
    {
        let r = RoomManager {
            rooms: room_table_new(),
            participants: memberships_new(),
            total_rooms: 0,
            sent: Ghost(Seq::empty()),
        };
        proof {
            assert(r.rooms().dom() =~= Set::<Seq<char>>::empty());
            assert(r.members().dom() =~= Set::<Seq<char>>::empty());
            assert(r.channels().dom() =~= Set::<Seq<char>>::empty());
            assert(r.rooms() =~= Map::<Seq<char>, Room>::empty());
            assert(r.members() =~= Map::<Seq<char>, Map<Seq<char>, Participant>>::empty());
        }
        r
    }

    /// Opens a room with no participant (replacing a room with the same id, participants
    /// included). The room counter grows (wrapping as an atomic counter does).
    pub fn create_room(&mut self, room: Room)
        requires
            old(self).wf(),
        ensures
            final(self).wf(),
            final(self).rooms() == old(self).rooms().insert(room.room_id@, room),
            final(self).members() == old(self).members().insert(room.room_id@, Map::<Seq<char>, Participant>::empty()),
            final(self).channels() == old(self).channels().insert(room.room_id@, Map::<Seq<char>, UnboundedSender<Message>>::empty()),
            final(self).room_counter() == vstd::wrapping::usize_specs::wrapping_add(old(self).room_counter(), 1),
    {
        let room_id = room.room_id.clone();
        room_table_insert(&mut self.rooms, room_id.clone(), room);
        let t = members_new();
        proof {
            assert(member_table(t) =~= Map::<Seq<char>, Participant>::empty());
            assert(member_channels(t).dom() =~= Set::<Seq<char>>::empty());
            assert(member_channels(t) =~= Map::<Seq<char>, UnboundedSender<Message>>::empty());
        }
        memberships_insert(&mut self.participants, room_id, t);
        self.total_rooms = self.total_rooms.wrapping_add(1);
    }

    /// The room and its number of participants.
    pub fn get_room(&self, room_id: &str) -> (r: Option<RoomState>)
        requires
            self.wf(),
        ensures
            match r {
                Some(s) => self.rooms().contains_key(room_id@) && s.room == self.rooms()[room_id@]
                    && s.participant_count == self.members()[room_id@].dom().len(),
                None => !self.rooms().contains_key(room_id@),
            },
    {
        let room = match room_table_get(&self.rooms, room_id) {
            Some(r) => r,
            None => return None,
        };
        let participant_count = match memberships_get(&self.participants, room_id) {
            Some(t) => members_len(&t),
            None => 0,
        };
        Some(RoomState { room, participant_count })
    }

    /// Closes a room: its participants are sent `closed_notice`, then the room and its
    /// participants are dropped; the room counter shrinks if the room was open.
    pub fn remove_room(&mut self, room_id: &str, closed_notice: &str)
        requires
            old(self).wf(),
        ensures
            final(self).wf(),
            final(self).rooms() == old(self).rooms().remove(room_id@),
            final(self).members() == old(self).members().remove(room_id@),
            final(self).channels() == old(self).channels().remove(room_id@),
            final(self).room_counter() == if old(self).rooms().contains_key(room_id@) {
                vstd::wrapping::usize_specs::wrapping_sub(old(self).room_counter(), 1)
            } else {
                old(self).room_counter()
            },
            !old(self).members().contains_key(room_id@) ==> final(self).deliveries() == old(self).deliveries(),
            old(self).members().contains_key(room_id@) ==> exists|all: Seq<ParticipantConnection>, outcomes: Seq<bool>|
                lists_connections(all, old(self).members()[room_id@], old(self).channels()[room_id@])
                && outcomes.len() == all.len()
                && final(self).deliveries() == old(self).deliveries() + #[trigger] notice_to(all, closed_notice@, outcomes),
    {
        if let Some(t) = memberships_remove(&mut self.participants, room_id) {
            let list = members_list(&t);
            let ghost all = list@;
            let senders = conn_senders_vec(list);
            let outcomes = send_all_recorded(&mut self.sent, &senders, closed_notice);
            proof {
                assert(lists_connections(all, old(self).members()[room_id@], old(self).channels()[room_id@]));
                assert(notice_to(all, closed_notice@, outcomes@) == deliveries_to(senders@, closed_notice@, outcomes@));
            }
        }
        if room_table_remove(&mut self.rooms, room_id) {
            self.total_rooms = self.total_rooms.wrapping_sub(1);
        }
    }

    /// Adds a participant to an open room (replacing one with the same id) and hands
    /// `joined_notice` to the channel of each of the room's other participants once; the new
    /// one is sent nothing. Gives the participants that were there before, or `None` (with
    /// nothing sent) when the room is not open.
    pub fn add_participant(
        &mut self,
        room_id: &str,
        participant: Participant,
        sender: UnboundedSender<Message>,
        joined_notice: &str,
    ) -> (r: Option<Vec<ParticipantInfo>>)
        requires
            old(self).wf(),
        ensures
            final(self).wf(),
            final(self).rooms() == old(self).rooms(),
            final(self).room_counter() == old(self).room_counter(),
            match r {
                Some(v) => old(self).members().contains_key(room_id@)
                    && lists_infos(v@, old(self).members()[room_id@])
                    && final(self).members() == old(self).members().insert(
                        room_id@,
                        old(self).members()[room_id@].insert(participant.participant_id@, participant),
                    )
                    && final(self).channels() == old(self).channels().insert(
                        room_id@,
                        old(self).channels()[room_id@].insert(participant.participant_id@, sender),
                    ),
                None => !old(self).members().contains_key(room_id@)
                    && final(self).members() == old(self).members()
                    && final(self).channels() == old(self).channels()
                    && final(self).deliveries() == old(self).deliveries(),
            },
            r is Some ==> exists|all: Seq<ParticipantConnection>, outcomes: Seq<bool>|
                lists_connections(all, final(self).members()[room_id@], final(self).channels()[room_id@])
                && outcomes.len() == drop_participant(all, participant.participant_id@).len()
                && final(self).deliveries() == old(self).deliveries()
                    + #[trigger] notice_to(drop_participant(all, participant.participant_id@), joined_notice@, outcomes),
    {
        let mut t = match memberships_get(&self.participants, room_id) {
            Some(t) => t,
            None => return None,
        };
        let ghost before = member_table(t);
        let list = members_list(&t);
        let current = infos_of(&list);
        proof {
            assert forall|i: int| 0 <= i < current@.len() implies before.contains_key((#[trigger] current@[i]).id@)
                && before[current@[i].id@].display_name@ == current@[i].name@
                && before[current@[i].id@].is_creator == current@[i].is_creator by {
                assert(list@[i].participant.participant_id@ == current@[i].id@);
            }
            assert forall|i: int, j: int| 0 <= i < j < current@.len() implies
                (#[trigger] current@[i]).id@ != (#[trigger] current@[j]).id@ by {
                assert(list@[i].participant.participant_id@ != list@[j].participant.participant_id@);
            }
        }
        let participant_id = participant.participant_id.clone();
        let ghost given = sender;
        members_insert(&mut t, participant_id.clone(), ParticipantConnection { participant, sender });
        memberships_insert(&mut self.participants, String::from_str(room_id), t);
        proof {
            assert(self.members().dom() =~= old(self).members().dom());
            assert(keyed_by_id(self.members()[room_id@]));
            assert(self.channels() == old(self).channels().insert(
                room_id@, old(self).channels()[room_id@].insert(participant.participant_id@, given)));
        }
        self.broadcast_to_room_except(room_id, participant_id.as_str(), joined_notice);
        Some(current)
    }

    /// Takes a participant out of a room; when it was there, `left_notice` is handed to the
    /// channel of each remaining participant once, and otherwise nothing is sent.
    pub fn remove_participant(&mut self, room_id: &str, participant_id: &str, left_notice: &str)
        requires
            old(self).wf(),
        ensures
            final(self).wf(),
            final(self).rooms() == old(self).rooms(),
            final(self).room_counter() == old(self).room_counter(),
            final(self).members() == if old(self).members().contains_key(room_id@) {
                old(self).members().insert(room_id@, old(self).members()[room_id@].remove(participant_id@))
            } else {
                old(self).members()
            },
            final(self).channels() == if old(self).members().contains_key(room_id@) {
                old(self).channels().insert(room_id@, old(self).channels()[room_id@].remove(participant_id@))
            } else {
                old(self).channels()
            },
            !(old(self).members().contains_key(room_id@) && old(self).members()[room_id@].contains_key(participant_id@))
                ==> final(self).deliveries() == old(self).deliveries(),
            old(self).members().contains_key(room_id@) && old(self).members()[room_id@].contains_key(participant_id@)
                ==> exists|all: Seq<ParticipantConnection>, outcomes: Seq<bool>|
                lists_connections(all, final(self).members()[room_id@], final(self).channels()[room_id@])
                && outcomes.len() == all.len()
                && final(self).deliveries() == old(self).deliveries() + #[trigger] notice_to(all, left_notice@, outcomes),
    {
        let mut t = match memberships_get(&self.participants, room_id) {
            Some(t) => t,
            None => return,
        };
        if members_remove(&mut t, participant_id) {
            memberships_insert(&mut self.participants, String::from_str(room_id), t);
            proof {
                assert(self.members().dom() =~= old(self).members().dom());
                assert(keyed_by_id(self.members()[room_id@]));
            }
            self.broadcast_to_room(room_id, left_notice);
        } else {
            proof {
                let m = old(self).members();
                assert(m[room_id@].remove(participant_id@) =~= m[room_id@]);
                assert(m.insert(room_id@, m[room_id@]) =~= m);
                let c = old(self).channels();
                assert(!c[room_id@].contains_key(participant_id@));
                assert(c[room_id@].remove(participant_id@) =~= c[room_id@]);
                assert(c.insert(room_id@, c[room_id@]) =~= c);
            }
        }
    }

    /// The participants of a room, each once, in no particular order; none when the room is not open.
    pub fn get_participants(&self, room_id: &str) -> (r: Vec<ParticipantInfo>)
        requires
            self.wf(),
        ensures
            if self.members().contains_key(room_id@) {
                lists_infos(r@, self.members()[room_id@])
            } else {
                r@.len() == 0
            },
    {
        let t = match memberships_get(&self.participants, room_id) {
            Some(t) => t,
            None => return Vec::new(),
        };
        let ghost table = member_table(t);
        let list = members_list(&t);
        let r = infos_of(&list);
        proof {
            assert forall|i: int| 0 <= i < r@.len() implies table.contains_key((#[trigger] r@[i]).id@)
                && table[r@[i].id@].display_name@ == r@[i].name@
                && table[r@[i].id@].is_creator == r@[i].is_creator by {
                assert(list@[i].participant.participant_id@ == r@[i].id@);
            }
            assert forall|i: int, j: int| 0 <= i < j < r@.len() implies
                (#[trigger] r@[i]).id@ != (#[trigger] r@[j]).id@ by {
                assert(list@[i].participant.participant_id@ != list@[j].participant.participant_id@);
            }
        }
        r
    }

    /// The connection of one participant of a room, if the room holds it: the target of a
    /// message to that participant.
    pub fn participant_connection(&self, room_id: &str, participant_id: &str) -> (r: Option<ParticipantConnection>)
        ensures
            match r {
                Some(c) => self.members().contains_key(room_id@)
                    && self.members()[room_id@].contains_key(participant_id@)
                    && c.participant == self.members()[room_id@][participant_id@]
                    && self.channels().contains_key(room_id@)
                    && self.channels()[room_id@].contains_key(participant_id@)
                    && c.sender == self.channels()[room_id@][participant_id@],
                None => !(self.members().contains_key(room_id@)
                    && self.members()[room_id@].contains_key(participant_id@)),
            },
    {
        match memberships_get(&self.participants, room_id) {
            Some(t) => members_get(&t, participant_id),
            None => None,
        }
    }

    /// Sends a text message to one participant of a room: the text is handed to that
    /// participant's channel when the room holds it, and nothing is sent otherwise. True when
    /// the channel took it.
    pub fn send_to_participant(&mut self, room_id: &str, participant_id: &str, text: &str) -> (r: bool)
        ensures
            final(self).rooms() == old(self).rooms(),
            final(self).members() == old(self).members(),
            final(self).channels() == old(self).channels(),
            final(self).room_counter() == old(self).room_counter(),
            r ==> old(self).members().contains_key(room_id@) && old(self).members()[room_id@].contains_key(participant_id@),
            old(self).members().contains_key(room_id@) && old(self).members()[room_id@].contains_key(participant_id@)
                && old(self).channels().contains_key(room_id@) && old(self).channels()[room_id@].contains_key(participant_id@)
                ==> final(self).deliveries() == old(self).deliveries().push(
                    (old(self).channels()[room_id@][participant_id@], text@, r)),
            !(old(self).members().contains_key(room_id@) && old(self).members()[room_id@].contains_key(participant_id@))
                ==> final(self).deliveries() == old(self).deliveries(),
    {
        match self.participant_connection(room_id, participant_id) {
            Some(c) => send_recorded(&mut self.sent, &c.sender, text),
            None => false,
        }
    }

    /// The connections of a room's participants, each once, in no particular order; none when
    /// the room is not open: the targets of a message to the whole room.
    pub fn room_connections(&self, room_id: &str) -> (r: Vec<ParticipantConnection>)
        requires
            self.wf(),
        ensures
            self.members().contains_key(room_id@) ==> lists_connections(r@, self.members()[room_id@], self.channels()[room_id@]),
            !self.members().contains_key(room_id@) ==> r@.len() == 0,
    {
        match memberships_get(&self.participants, room_id) {
            Some(t) => members_list(&t),
            None => Vec::new(),
        }
    }

    /// The connections of a room's participants other than `exclude_id`: those that
    /// `room_connections` lists, in the same order, without `exclude_id`.
    pub fn room_connections_except(&self, room_id: &str, exclude_id: &str) -> (r: Vec<ParticipantConnection>)
        requires
            self.wf(),
        ensures
            exists|all: Seq<ParticipantConnection>|
                (if self.members().contains_key(room_id@) {
                    lists_connections(all, self.members()[room_id@], self.channels()[room_id@])
                } else {
                    all.len() == 0
                }) && r@ == #[trigger] drop_participant(all, exclude_id@),
    {
        let mut rest = self.room_connections(room_id);
        let ghost all = rest@;
        let mut kept: Vec<ParticipantConnection> = Vec::new();
        let mut i: usize = 0;
        let n = rest.len();
        while rest.len() > 0
            invariant
                n == all.len(),
                i + rest.len() == n,
                rest@ == all.skip(i as int),
                kept@ == drop_participant(all.take(i as int), exclude_id@),
            decreases rest.len(),
        {
            let ghost before = rest@;
            let c = rest.remove(0);
            assert(rest@ =~= all.skip(i + 1)) by {
                assert(rest@ == before.remove(0));
            }
            assert(all.take(i + 1).drop_last() =~= all.take(i as int));
            assert(all.take(i + 1).last() == c) by {
                assert(before[0] == c);
            }
            if !str_eq(c.participant.participant_id.as_str(), exclude_id) {
                kept.push(c);
            }
            i = i + 1;
        }
        assert(all.take(n as int) =~= all);
        kept
    }

    /// Sends a text message to every participant of a room: the text is handed to each of
    /// their channels once, in some order, and nothing else is sent.
    pub fn broadcast_to_room(&mut self, room_id: &str, text: &str)
        requires
            old(self).wf(),
        ensures
            final(self).wf(),
            final(self).rooms() == old(self).rooms(),
            final(self).members() == old(self).members(),
            final(self).channels() == old(self).channels(),
            final(self).room_counter() == old(self).room_counter(),
            !old(self).members().contains_key(room_id@) ==> final(self).deliveries() == old(self).deliveries(),
            old(self).members().contains_key(room_id@) ==> exists|all: Seq<ParticipantConnection>, outcomes: Seq<bool>|
                lists_connections(all, old(self).members()[room_id@], old(self).channels()[room_id@])
                && outcomes.len() == all.len()
                && final(self).deliveries() == old(self).deliveries() + #[trigger] notice_to(all, text@, outcomes),
    {
        let list = self.room_connections(room_id);
        let ghost all = list@;
        let senders = conn_senders_vec(list);
        let outcomes = send_all_recorded(&mut self.sent, &senders, text);
        proof {
            assert(notice_to(all, text@, outcomes@) == deliveries_to(senders@, text@, outcomes@));
            if !old(self).members().contains_key(room_id@) {
                assert(deliveries_to(senders@, text@, outcomes@) =~= Seq::<Delivery>::empty());
                assert(self.deliveries() =~= old(self).deliveries());
            }
        }
    }

    /// Sends a text message to every participant of a room but `exclude_id`: the text is handed
    /// to each of their channels once, in some order, and nothing else is sent.
    pub fn broadcast_to_room_except(&mut self, room_id: &str, exclude_id: &str, text: &str)
        requires
            old(self).wf(),
        ensures
            final(self).wf(),
            final(self).rooms() == old(self).rooms(),
            final(self).members() == old(self).members(),
            final(self).channels() == old(self).channels(),
            final(self).room_counter() == old(self).room_counter(),
            !old(self).members().contains_key(room_id@) ==> final(self).deliveries() == old(self).deliveries(),
            old(self).members().contains_key(room_id@) ==> exists|all: Seq<ParticipantConnection>, outcomes: Seq<bool>|
                lists_connections(all, old(self).members()[room_id@], old(self).channels()[room_id@])
                && outcomes.len() == drop_participant(all, exclude_id@).len()
                && final(self).deliveries() == old(self).deliveries()
                    + #[trigger] notice_to(drop_participant(all, exclude_id@), text@, outcomes),
    {
        let list = self.room_connections_except(room_id, exclude_id);
        let ghost kept = list@;
        let senders = conn_senders_vec(list);
        let outcomes = send_all_recorded(&mut self.sent, &senders, text);
        proof {
            let all = choose|all: Seq<ParticipantConnection>|
                (if old(self).members().contains_key(room_id@) {
                    lists_connections(all, old(self).members()[room_id@], old(self).channels()[room_id@])
                } else {
                    all.len() == 0
                }) && kept == #[trigger] drop_participant(all, exclude_id@);
            assert(notice_to(kept, text@, outcomes@) == deliveries_to(senders@, text@, outcomes@));
            if !old(self).members().contains_key(room_id@) {
                assert(drop_participant(all, exclude_id@) =~= all);
                assert(deliveries_to(senders@, text@, outcomes@) =~= Seq::<Delivery>::empty());
                assert(self.deliveries() =~= old(self).deliveries());
            }
        }
    }

    /// Relays a signalling message (as text) from `from_id` to `to_id` in a room: the text is
    /// handed to the channel of `to_id` when the room holds it, and nothing is sent otherwise.
    /// True when the channel took it.
    pub fn forward_signaling(&mut self, room_id: &str, from_id: &str, to_id: &str, text: &str) -> (r: bool)
        ensures
            final(self).rooms() == old(self).rooms(),
            final(self).members() == old(self).members(),
            final(self).channels() == old(self).channels(),
            final(self).room_counter() == old(self).room_counter(),
            r ==> old(self).members().contains_key(room_id@) && old(self).members()[room_id@].contains_key(to_id@),
            old(self).members().contains_key(room_id@) && old(self).members()[room_id@].contains_key(to_id@)
                && old(self).channels().contains_key(room_id@) && old(self).channels()[room_id@].contains_key(to_id@)
                ==> final(self).deliveries() == old(self).deliveries().push(
                    (old(self).channels()[room_id@][to_id@], text@, r)),
            !(old(self).members().contains_key(room_id@) && old(self).members()[room_id@].contains_key(to_id@))
                ==> final(self).deliveries() == old(self).deliveries(),
    {
        self.send_to_participant(room_id, to_id, text)
    }

    /// The room counter.
    pub fn total_rooms(&self) -> (r: usize)
        ensures
            r == self.room_counter(),
    {
        self.total_rooms
    }

    /// Closes every room whose expiry is before `now` (seconds since the Unix epoch), as
    /// `remove_room` does: the rooms that stay are those that expire at `now` or later, and the
    /// room counter goes down by the number of rooms closed.
    pub fn cleanup_expired_rooms_at(&mut self, now: i64, closed_notice: &str)
        requires
            old(self).wf(),
        ensures
            final(self).wf(),
            final(self).rooms() == still_open(old(self).rooms(), now),
            final(self).members() == old(self).members().restrict(still_open(old(self).rooms(), now).dom()),
            final(self).channels() == old(self).channels().restrict(still_open(old(self).rooms(), now).dom()),
            final(self).room_counter() == vstd::wrapping::usize_specs::wrapping_sub(
                old(self).room_counter(),
                (old(self).rooms().dom().len() - final(self).rooms().dom().len()) as usize,
            ),
    {
        let ghost rooms0 = self.rooms();
        let ghost members0 = self.members();
        let ghost channels0 = self.channels();
        let ghost count0 = self.room_counter();
        let keys = room_table_keys(&self.rooms);
        let ghost ks = strings_view(keys@);
        let mut i: usize = 0;
        while i < keys.len()
            invariant
                i <= keys.len(),
                ks == strings_view(keys@),
                ks.to_set() == rooms0.dom(),
                ks.no_duplicates(),
                self.wf(),
                rooms0.dom().finite(),
                forall|k: Seq<char>| #[trigger] self.rooms().contains_key(k) <==> (rooms0.contains_key(k)
                    && !(ks.take(i as int).contains(k) && rooms0[k].expires_at < now)),
                forall|k: Seq<char>| #[trigger] self.rooms().contains_key(k) ==> self.rooms()[k] == rooms0[k]
                    && self.members()[k] == members0[k] && self.channels()[k] == channels0[k],
                self.rooms().dom().len() <= rooms0.dom().len(),
                rooms0.dom().len() - self.rooms().dom().len() <= i,
                self.room_counter() == vstd::wrapping::usize_specs::wrapping_sub(
                    count0,
                    (rooms0.dom().len() - self.rooms().dom().len()) as usize,
                ),
            decreases keys.len() - i,
        {
            let key = &keys[i];
            proof {
                assert(ks[i as int] == key@);
                assert(ks.to_set().contains(key@));
                assert forall|j: int| 0 <= j < i implies ks[j] != key@ by {}
                assert(!ks.take(i as int).contains(key@));
            }
            match room_table_get(&self.rooms, key.as_str()) {
                Some(room) => {
                    if room.expires_at < now {
                        self.remove_room(key.as_str(), closed_notice);
                    }
                },
                None => {},
            }
            proof {
                assert(ks.take(i + 1) == ks.take(i as int).push(key@));
                assert forall|k: Seq<char>| ks.take(i + 1).contains(k) <==> (ks.take(i as int).contains(k) || k == key@) by {
                    if k == key@ {
                        assert(ks.take(i + 1)[i as int] == k);
                    }
                    if ks.take(i + 1).contains(k) {
                        let j = choose|j: int| 0 <= j < ks.take(i + 1).len() && #[trigger] ks.take(i + 1)[j] == k;
                        if j < i {
                            assert(ks.take(i as int)[j] == k);
                        }
                    }
                    if ks.take(i as int).contains(k) {
                        let j = choose|j: int| 0 <= j < ks.take(i as int).len() && #[trigger] ks.take(i as int)[j] == k;
                        assert(ks.take(i + 1)[j] == k);
                    }
                }
            }
            i = i + 1;
        }
        proof {
            assert(ks.take(keys.len() as int) == ks);
            assert forall|k: Seq<char>| ks.contains(k) <==> rooms0.contains_key(k) by {
                assert(ks.to_set().contains(k) == ks.contains(k));
            }
            assert(self.rooms() =~= still_open(rooms0, now));
            assert(self.members() =~= members0.restrict(still_open(rooms0, now).dom()));
            assert(self.channels() =~= channels0.restrict(still_open(rooms0, now).dom()));
        }
    }

    /// Closes every room that has expired by the current time (see `cleanup_expired_rooms_at`).
    pub fn cleanup_expired_rooms(&mut self, closed_notice: &str)
        requires
            old(self).wf(),
        ensures
            final(self).wf(),
            exists|now: i64| MIN_TIMESTAMP <= now <= MAX_TIMESTAMP
                && #[trigger] still_open(old(self).rooms(), now) == final(self).rooms(),
            final(self).members() == old(self).members().restrict(final(self).rooms().dom()),
            final(self).channels() == old(self).channels().restrict(final(self).rooms().dom()),
            final(self).room_counter() == vstd::wrapping::usize_specs::wrapping_sub(
                old(self).room_counter(),
                (old(self).rooms().dom().len() - final(self).rooms().dom().len()) as usize,
            ),
    {
        let now = now_unix_seconds();
        self.cleanup_expired_rooms_at(now, closed_notice);
    }
}

/// The rooms of `rooms` that have not expired at `now`: those whose expiry is `now` or later.
pub open spec fn still_open(rooms: Map<Seq<char>, Room>, now: i64) -> Map<Seq<char>, Room> {
    rooms.restrict(rooms.dom().filter(|k: Seq<char>| rooms[k].expires_at >= now))
}

/// A room just opened is found, with no participant.
pub proof fn law_opened_room_is_found_empty(
    rooms: Map<Seq<char>, Room>,
    members: Map<Seq<char>, Map<Seq<char>, Participant>>,
    room: Room,
)
    ensures
        rooms.insert(room.room_id@, room).contains_key(room.room_id@),
        rooms.insert(room.room_id@, room)[room.room_id@] == room,
        members.insert(room.room_id@, Map::<Seq<char>, Participant>::empty())[room.room_id@].dom().len() == 0,
{
    assert(Map::<Seq<char>, Participant>::empty().dom() =~= Set::<Seq<char>>::empty());
}

/// A participant that was not in a room, once added and removed again, leaves the room's
/// participants as they were.
pub proof fn law_join_then_leave(
    members: Map<Seq<char>, Map<Seq<char>, Participant>>,
    room_id: Seq<char>,
    participant: Participant,
)
    requires
        members.contains_key(room_id),
        !members[room_id].contains_key(participant.participant_id@),
    ensures
        ({
            let joined = members.insert(room_id, members[room_id].insert(participant.participant_id@, participant));
            joined.insert(room_id, joined[room_id].remove(participant.participant_id@))
        }) == members,
{
    let t = members[room_id];
    assert(t.insert(participant.participant_id@, participant).remove(participant.participant_id@) =~= t);
    let joined = members.insert(room_id, t.insert(participant.participant_id@, participant));
    assert(joined.insert(room_id, t) =~= members);
}

} // verus!
