//! Creating rooms, checking their passwords and closing them.

use vstd::prelude::*;
use vstd::string::*;
use vstd::utf8::*;
use crate::clock::{now_unix_seconds, MAX_TIMESTAMP, MIN_TIMESTAMP};
use crate::crypto::{compute_sha256, hex_lower, sha256};
use crate::random::random_index;
use crate::text::{chars_of, concat2, push_char, str_eq, string_from_range};
use crate::webrtc_room::models::{CreateRoomRequest, CreateRoomResponse, Participant, Room, RoomState};
use crate::webrtc_room::room_manager::{lists_connections, notice_to, ParticipantConnection, RoomManager};

verus! {

/// A character a room id may hold: upper-case letters but `I` and `O`, digits but `0` and `1`.
pub open spec fn is_room_id_char(c: char) -> bool {
    (('A' <= c && c <= 'Z') && c != 'I' && c != 'O') || ('2' <= c && c <= '9')
}

/// A room id: six room-id characters.
pub open spec fn is_room_id(s: Seq<char>) -> bool {
    &&& s.len() == 6
    &&& forall|i: int| 0 <= i < 6 ==> is_room_id_char(#[trigger] s[i])
}

/// A generated password: six decimal digits.
pub open spec fn is_generated_password(s: Seq<char>) -> bool {
    &&& s.len() == 6
    &&& forall|i: int| 0 <= i < 6 ==> '0' <= #[trigger] s[i] && s[i] <= '9'
}

/// The stored form of a password: the lowercase hex SHA-256 of its UTF-8 bytes.
pub open spec fn password_hash_of(password: Seq<char>) -> Seq<char> {
    hex_lower(sha256(encode_utf8(password)))
}

/// The name a room gets when none is asked for: the first eight characters of the creator's
/// id, then "的房间".
pub open spec fn default_room_name(creator_id: Seq<char>) -> Seq<char> {
    creator_id.take(if creator_id.len() < 8 { creator_id.len() as int } else { 8 }) + "的房间"@
}

/// The participant limit of a room: the one asked for (ten if none), at most fifty.
pub open spec fn participant_limit(asked: Option<usize>) -> usize {
    let m = match asked {
        Some(m) => m,
        None => 10,
    };
    if m < 50 { m } else { 50 }
}

/// The lifetime of a room in minutes: the one asked for (two hours if none), at most a day.
pub open spec fn lifetime_minutes(asked: Option<u32>) -> int {
    let m = match asked {
        Some(m) => m as int,
        None => 120,
    };
    if m < 1440 { m } else { 1440 }
}

/// The room that `request` by `creator_id` makes at `now`, with the given id and password.
pub open spec fn room_for(
    creator_id: Seq<char>,
    request: CreateRoomRequest,
    room_id: Seq<char>,
    password: Seq<char>,
    now: i64,
) -> (Seq<char>, Seq<char>, Seq<char>, Seq<char>, usize, i64, int) {
    (
        room_id,
        match request.name {
            Some(n) => n@,
            None => default_room_name(creator_id),
        },
        creator_id,
        password_hash_of(password),
        participant_limit(request.max_participants),
        now,
        now + lifetime_minutes(request.expires_minutes) * 60,
    )
}

/// The fields of a room, as `room_for` lists them.
pub open spec fn room_fields(r: Room) -> (Seq<char>, Seq<char>, Seq<char>, Seq<char>, usize, i64, int) {
    (r.room_id@, r.name@, r.creator_id@, r.password_hash@, r.max_participants, r.created_at, r.expires_at as int)
}

/// Why a room operation is refused.
#[derive(Debug, Clone, Copy, PartialEq, Eq, Structural)]
pub enum RoomError {
    NotFound,
    InvalidPassword,
    Expired,
    RoomFull,
    NotCreator,
}

impl RoomError {
    /// The text shown for the error.
    pub fn message(&self) -> (r: String)
        ensures
            r@ == match self {
                RoomError::NotFound => "房间不存在"@,
                RoomError::InvalidPassword => "密码错误"@,
                RoomError::Expired => "房间已过期"@,
                RoomError::RoomFull => "房间已满"@,
                RoomError::NotCreator => "只有创建者可以执行此操作"@,
            },
    {
        match self {
            RoomError::NotFound => String::from_str("房间不存在"),
            RoomError::InvalidPassword => String::from_str("密码错误"),
            RoomError::Expired => String::from_str("房间已过期"),
            RoomError::RoomFull => String::from_str("房间已满"),
            RoomError::NotCreator => String::from_str("只有创建者可以执行此操作"),
        }
    }
}

/// The answer to a password check on a room that `rooms` and `members` describe at `now`,
/// before anything is removed.
pub open spec fn password_verdict(
    rooms: Map<Seq<char>, Room>,
    members: Map<Seq<char>, Map<Seq<char>, Participant>>,
    room_id: Seq<char>,
    password: Seq<char>,
    now: i64,
) -> Result<(), RoomError> {
    if !rooms.contains_key(room_id) {
        Err(RoomError::NotFound)
    } else if rooms[room_id].expires_at < now {
        Err(RoomError::Expired)
    } else if rooms[room_id].password_hash@ != password_hash_of(password) {
        Err(RoomError::InvalidPassword)
    } else if members[room_id].dom().len() >= rooms[room_id].max_participants {
        Err(RoomError::RoomFull)
    } else {
        Ok(())
    }
}

/// The lowercase hex SHA-256 of a password's UTF-8 bytes.
fn hash_password(password: &str) -> (r: String)
    ensures
        r@ == password_hash_of(password@),
{
    compute_sha256(password.as_bytes())
}

/// Six characters drawn uniformly from the room-id alphabet.
fn generate_room_id() -> (r: String)
    ensures
        is_room_id(r@),
{
    let alphabet: Vec<char> = vec![
        'A', 'B', 'C', 'D', 'E', 'F', 'G', 'H', 'J', 'K', 'L', 'M', 'N', 'P', 'Q', 'R',
        'S', 'T', 'U', 'V', 'W', 'X', 'Y', 'Z', '2', '3', '4', '5', '6', '7', '8', '9',
    ];
    assert(forall|i: int| 0 <= i < 32 ==> is_room_id_char(#[trigger] alphabet@[i]));
    let mut r = String::new();
    let mut k: usize = 0;
    while k < 6
        invariant
            k <= 6,
            r@.len() == k,
            alphabet@.len() == 32,
            forall|i: int| 0 <= i < 32 ==> is_room_id_char(#[trigger] alphabet@[i]),
            forall|i: int| 0 <= i < k ==> is_room_id_char(#[trigger] r@[i]),
        decreases 6 - k,
    {
        let idx = random_index(alphabet.len());
        push_char(&mut r, alphabet[idx]);
        k = k + 1;
    }
    r
}

/// Six decimal digits drawn uniformly.
fn generate_password() -> (r: String)
    ensures
        is_generated_password(r@),
{
    let digits: Vec<char> = vec!['0', '1', '2', '3', '4', '5', '6', '7', '8', '9'];
    assert(forall|i: int| 0 <= i < 10 ==> '0' <= #[trigger] digits@[i] && digits@[i] <= '9');
    let mut r = String::new();
    let mut k: usize = 0;
    while k < 6
        invariant
            k <= 6,
            r@.len() == k,
            digits@.len() == 10,
            forall|i: int| 0 <= i < 10 ==> '0' <= #[trigger] digits@[i] && digits@[i] <= '9',
            forall|i: int| 0 <= i < k ==> '0' <= #[trigger] r@[i] && r@[i] <= '9',
        decreases 6 - k,
    {
        let idx = random_index(digits.len());
        push_char(&mut r, digits[idx]);
        k = k + 1;
    }
    r
}

/// The room that `request` by `creator_id` makes at `now` under the given id and password, and
/// the answer to its creator.
pub fn new_room(
    creator_id: &str,
    request: CreateRoomRequest,
    room_id: String,
    password: String,
    now: i64,
) -> (r: (Room, CreateRoomResponse))
    requires
        MIN_TIMESTAMP <= now <= MAX_TIMESTAMP,
    ensures
        room_fields(r.0) == room_for(creator_id@, request, room_id@, password@, now),
        r.1.room_id@ == room_id@,
        r.1.password@ == password@,
        r.1.name@ == r.0.name@,
        r.1.max_participants == r.0.max_participants,
        r.1.expires_at == r.0.expires_at,
{
    let password_hash = hash_password(password.as_str());
    let name = match request.name {
        Some(n) => n,
        None => {
            let chars = chars_of(creator_id);
            let end: usize = if chars.len() < 8 { chars.len() } else { 8 };
            let head = string_from_range(&chars, 0, end);
            proof {
                reveal_strlit("的房间");
                assert(chars@.subrange(0, end as int) == creator_id@.take(end as int));
            }
            concat2(head.as_str(), "的房间")
        },
    };
    let asked_max: usize = match request.max_participants {
        Some(m) => m,
        None => 10,
    };
    let max_participants: usize = if asked_max < 50 { asked_max } else { 50 };
    let asked_minutes: u32 = match request.expires_minutes {
        Some(m) => m,
        None => 120,
    };
    let minutes: i64 = if asked_minutes < 1440 { asked_minutes as i64 } else { 1440 };
    let expires_at: i64 = now + minutes * 60;
    let room = Room {
        room_id: room_id.clone(),
        name: name.clone(),
        creator_id: String::from_str(creator_id),
        password_hash,
        max_participants,
        created_at: now,
        expires_at,
    };
    let response = CreateRoomResponse { room_id, password, name, max_participants, expires_at };
    (room, response)
}

/// Room creation and password checks over a room manager.
pub struct RoomService {
    room_manager: RoomManager,
}

impl RoomService {
    /// The rooms and participants the service manages.
    pub closed spec fn manager(&self) -> RoomManager {
        self.room_manager
    }

    /// The service's manager is well formed.
    pub open spec fn wf(&self) -> bool {
        self.manager().wf()
    }

    pub fn new(room_manager: RoomManager) -> (r: Self)
        ensures
            r.manager() == room_manager,
    {
        RoomService { room_manager }
    }

    /// Opens a room for `creator_id` at `now`: a fresh random id, the asked password or six
    /// random digits, stored as its hash.
    pub fn create_room_at(&mut self, creator_id: &str, request: CreateRoomRequest, now: i64) -> (r: CreateRoomResponse)
        requires
            old(self).wf(),
            MIN_TIMESTAMP <= now <= MAX_TIMESTAMP,
        ensures
            final(self).wf(),
            is_room_id(r.room_id@),
            match request.password {
                Some(p) => r.password@ == p@,
                None => is_generated_password(r.password@),
            },
            final(self).manager().rooms().contains_key(r.room_id@),
            room_fields(final(self).manager().rooms()[r.room_id@])
                == room_for(creator_id@, request, r.room_id@, r.password@, now),
            final(self).manager().rooms() == old(self).manager().rooms().insert(
                r.room_id@,
                final(self).manager().rooms()[r.room_id@],
            ),
            final(self).manager().members() == old(self).manager().members().insert(
                r.room_id@,
                Map::<Seq<char>, Participant>::empty(),
            ),
            r.name@ == final(self).manager().rooms()[r.room_id@].name@,
            r.max_participants == final(self).manager().rooms()[r.room_id@].max_participants,
            r.expires_at == final(self).manager().rooms()[r.room_id@].expires_at,
    {
        let room_id = generate_room_id();
        let password = match &request.password {
            Some(p) => p.clone(),
            None => generate_password(),
        };
        let (room, response) = new_room(creator_id, request, room_id, password, now);
        self.room_manager.create_room(room);
        response
    }

    /// Opens a room for `creator_id` now (see `create_room_at`).
    pub fn create_room(&mut self, creator_id: &str, request: CreateRoomRequest) -> (r: CreateRoomResponse)
        requires
            old(self).wf(),
        ensures
            final(self).wf(),
            is_room_id(r.room_id@),
            match request.password {
                Some(p) => r.password@ == p@,
                None => is_generated_password(r.password@),
            },
            final(self).manager().rooms().contains_key(r.room_id@),
            exists|now: i64| MIN_TIMESTAMP <= now <= MAX_TIMESTAMP
                && room_fields(#[trigger] final(self).manager().rooms()[r.room_id@])
                    == room_for(creator_id@, request, r.room_id@, r.password@, now),
            final(self).manager().rooms() == old(self).manager().rooms().insert(
                r.room_id@,
                final(self).manager().rooms()[r.room_id@],
            ),
            final(self).manager().members() == old(self).manager().members().insert(
                r.room_id@,
                Map::<Seq<char>, Participant>::empty(),
            ),
            r.name@ == final(self).manager().rooms()[r.room_id@].name@,
            r.max_participants == final(self).manager().rooms()[r.room_id@].max_participants,
            r.expires_at == final(self).manager().rooms()[r.room_id@].expires_at,
    {
        let now = now_unix_seconds();
        self.create_room_at(creator_id, request, now)
    }

    /// Checks a password for a room at `now`. An expired room is closed (its participants are
    /// sent `closed_notice`) and refused; otherwise the password must match the stored hash and
    /// the room must have room for one more participant.
    pub fn verify_password_at(&mut self, room_id: &str, password: &str, now: i64, closed_notice: &str)
        -> (r: Result<RoomState, RoomError>)
        requires
            old(self).wf(),
        ensures
            final(self).wf(),
            match password_verdict(old(self).manager().rooms(), old(self).manager().members(), room_id@, password@, now) {
                Ok(()) => r matches Ok(s) && s.room == old(self).manager().rooms()[room_id@]
                    && s.participant_count == old(self).manager().members()[room_id@].dom().len(),
                Err(e) => r == Err::<RoomState, RoomError>(e),
            },
            if r == Err::<RoomState, RoomError>(RoomError::Expired) {
                final(self).manager().rooms() == old(self).manager().rooms().remove(room_id@)
                    && final(self).manager().members() == old(self).manager().members().remove(room_id@)
                    && exists|all: Seq<ParticipantConnection>, outcomes: Seq<bool>|
                        lists_connections(all, old(self).manager().members()[room_id@], old(self).manager().channels()[room_id@])
                        && outcomes.len() == all.len()
                        && final(self).manager().deliveries() == old(self).manager().deliveries()
                            + #[trigger] notice_to(all, closed_notice@, outcomes)
            } else {
                final(self).manager() == old(self).manager()
            },
    {
        let state = match self.room_manager.get_room(room_id) {
            Some(s) => s,
            None => return Err(RoomError::NotFound),
        };
        if state.room.expires_at < now {
            self.room_manager.remove_room(room_id, closed_notice);
            return Err(RoomError::Expired);
        }
        let password_hash = hash_password(password);
        if !str_eq(state.room.password_hash.as_str(), password_hash.as_str()) {
            return Err(RoomError::InvalidPassword);
        }
        if state.participant_count >= state.room.max_participants {
            return Err(RoomError::RoomFull);
        }
        Ok(state)
    }

    /// Checks a password for a room now (see `verify_password_at`).
    pub fn verify_password(&mut self, room_id: &str, password: &str, closed_notice: &str)
        -> (r: Result<RoomState, RoomError>)
        requires
            old(self).wf(),
        ensures
            final(self).wf(),
            exists|now: i64| MIN_TIMESTAMP <= now <= MAX_TIMESTAMP && match #[trigger] password_verdict(
                old(self).manager().rooms(),
                old(self).manager().members(),
                room_id@,
                password@,
                now,
            ) {
                Ok(()) => r matches Ok(s) && s.room == old(self).manager().rooms()[room_id@]
                    && s.participant_count == old(self).manager().members()[room_id@].dom().len(),
                Err(e) => r == Err::<RoomState, RoomError>(e),
            },
            if r == Err::<RoomState, RoomError>(RoomError::Expired) {
                final(self).manager().rooms() == old(self).manager().rooms().remove(room_id@)
                    && final(self).manager().members() == old(self).manager().members().remove(room_id@)
                    && exists|all: Seq<ParticipantConnection>, outcomes: Seq<bool>|
                        lists_connections(all, old(self).manager().members()[room_id@], old(self).manager().channels()[room_id@])
                        && outcomes.len() == all.len()
                        && final(self).manager().deliveries() == old(self).manager().deliveries()
                            + #[trigger] notice_to(all, closed_notice@, outcomes)
            } else {
                final(self).manager() == old(self).manager()
            },
    {
        let now = now_unix_seconds();
        self.verify_password_at(room_id, password, now, closed_notice)
    }

    /// The room and its number of participants.
    pub fn get_room(&self, room_id: &str) -> (r: Option<RoomState>)
        requires
            self.wf(),
        ensures
            match r {
                Some(s) => self.manager().rooms().contains_key(room_id@)
                    && s.room == self.manager().rooms()[room_id@]
                    && s.participant_count == self.manager().members()[room_id@].dom().len(),
                None => !self.manager().rooms().contains_key(room_id@),
            },
    {
        self.room_manager.get_room(room_id)
    }

    /// Closes a room at the request of `user_id`, who must be its creator; its participants
    /// are sent `closed_notice`.
    pub fn close_room(&mut self, room_id: &str, user_id: &str, closed_notice: &str) -> (r: Result<(), RoomError>)
        requires
            old(self).wf(),
        ensures
            final(self).wf(),
            !old(self).manager().rooms().contains_key(room_id@) ==> r == Err::<(), RoomError>(RoomError::NotFound)
                && final(self).manager() == old(self).manager(),
            old(self).manager().rooms().contains_key(room_id@)
                && old(self).manager().rooms()[room_id@].creator_id@ != user_id@
                ==> r == Err::<(), RoomError>(RoomError::NotCreator) && final(self).manager() == old(self).manager(),
            old(self).manager().rooms().contains_key(room_id@)
                && old(self).manager().rooms()[room_id@].creator_id@ == user_id@
                ==> r == Ok::<(), RoomError>(())
                && final(self).manager().rooms() == old(self).manager().rooms().remove(room_id@)
                && final(self).manager().members() == old(self).manager().members().remove(room_id@)
                && exists|all: Seq<ParticipantConnection>, outcomes: Seq<bool>|
                    lists_connections(all, old(self).manager().members()[room_id@], old(self).manager().channels()[room_id@])
                    && outcomes.len() == all.len()
                    && final(self).manager().deliveries() == old(self).manager().deliveries()
                        + #[trigger] notice_to(all, closed_notice@, outcomes),
    {
        let state = match self.room_manager.get_room(room_id) {
            Some(s) => s,
            None => return Err(RoomError::NotFound),
        };
        if !str_eq(state.room.creator_id.as_str(), user_id) {
            return Err(RoomError::NotCreator);
        }
        self.room_manager.remove_room(room_id, closed_notice);
        Ok(())
    }

    /// The room manager.
    pub fn room_manager(&self) -> (r: &RoomManager)
        ensures
            *r == self.manager(),
    {
        &self.room_manager
    }

    /// The room manager, for changes to its participants.
    pub fn room_manager_mut(&mut self) -> (r: &mut RoomManager)
        ensures
            *r == old(self).manager(),
            final(self).manager() == *final(r),
    {
        &mut self.room_manager
    }
}


/// A room accepts exactly the password whose hash it stores, while it is open, not expired and
/// not full: the password a room was created with opens it.
pub proof fn law_password_opens_room(
    rooms: Map<Seq<char>, Room>,
    members: Map<Seq<char>, Map<Seq<char>, Participant>>,
    room_id: Seq<char>,
    password: Seq<char>,
    now: i64,
)
    requires
        rooms.contains_key(room_id),
        now <= rooms[room_id].expires_at,
        members[room_id].dom().len() < rooms[room_id].max_participants,
    ensures
        password_verdict(rooms, members, room_id, password, now) is Ok
            <==> rooms[room_id].password_hash@ == password_hash_of(password),
{
}

} // verus!
