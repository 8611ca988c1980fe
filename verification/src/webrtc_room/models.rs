//! Rooms, participants and signalling messages.

use vstd::prelude::*;
use vstd::string::*;

verus! {

/// A room. Times are seconds since the Unix epoch.
#[derive(Debug, Clone)]
pub struct Room {
    pub room_id: String,
    pub name: String,
    pub creator_id: String,
    pub password_hash: String,
    pub max_participants: usize,
    pub created_at: i64,
    pub expires_at: i64,
}

/// A request to create a room.
#[derive(Debug)]
pub struct CreateRoomRequest {
    pub name: Option<String>,
    pub password: Option<String>,
    pub max_participants: Option<usize>,
    pub expires_minutes: Option<u32>,
}

/// The answer to a room creation; the only time the password is shown in clear.
#[derive(Debug)]
pub struct CreateRoomResponse {
    pub room_id: String,
    pub password: String,
    pub name: String,
    pub max_participants: usize,
    pub expires_at: i64,
}

/// A request to join a room.
#[derive(Debug)]
pub struct JoinRoomRequest {
    pub password: String,
    pub display_name: String,
}

/// One ICE server given to a participant.
#[derive(Debug, Clone)]
pub struct IceServerConfig {
    pub urls: Vec<String>,
    pub username: Option<String>,
    pub credential: Option<String>,
}

/// The answer to a successful join.
#[derive(Debug)]
pub struct JoinRoomResponse {
    pub participant_id: String,
    pub ws_token: String,
    pub room_name: String,
    pub ice_servers: Vec<IceServerConfig>,
    pub token_expires_at: i64,
}

/// A room with its current number of participants.
#[derive(Debug, Clone)]
pub struct RoomState {
    pub room: Room,
    pub participant_count: usize,
}

/// A participant of a room. `joined_at` is in seconds since the Unix epoch.
#[derive(Debug, Clone)]
pub struct Participant {
    pub participant_id: String,
    pub display_name: String,
    pub user_id: Option<String>,
    pub is_creator: bool,
    pub joined_at: i64,
}

/// What other participants see of a participant.
#[derive(Debug, Clone)]
pub struct ParticipantInfo {
    pub id: String,
    pub name: String,
    pub is_creator: bool,
}

impl ParticipantInfo {
    /// The public part of a participant.
    pub fn from(p: &Participant) -> (r: ParticipantInfo)
        ensures
            r.id@ == p.participant_id@,
            r.name@ == p.display_name@,
            r.is_creator == p.is_creator,
    {
        ParticipantInfo {
            id: p.participant_id.clone(),
            name: p.display_name.clone(),
            is_creator: p.is_creator,
        }
    }
}

/// An ICE candidate relayed between participants.
#[derive(Debug, Clone)]
pub struct IceCandidate {
    pub candidate: String,
    pub sdp_m_line_index: Option<u32>,
    pub sdp_mid: Option<String>,
}

/// A signalling message from a client.
#[derive(Debug, Clone)]
pub enum ClientSignaling {
    Offer { to: String, sdp: String },
    Answer { to: String, sdp: String },
    Candidate { to: String, candidate: IceCandidate },
    Leave,
}

/// A signalling message to a client.
#[derive(Debug, Clone)]
pub enum ServerSignaling {
    Joined { participant_id: String, participants: Vec<ParticipantInfo> },
    PeerJoined { participant: ParticipantInfo },
    PeerLeft { participant_id: String },
    Offer { from: String, sdp: String },
    Answer { from: String, sdp: String },
    Candidate { from: String, candidate: IceCandidate },
    RoomClosed { reason: String },
    Error { code: String, message: String },
}

/// Where a client's signalling message goes, and what it becomes.
#[derive(Debug)]
pub enum SignalingRoute {
    /// Relay `message` to the participant `to`.
    Forward { to: String, message: ServerSignaling },
    /// The participant announced it leaves; the connection's end does the cleanup.
    Leave,
}

/// The route of a client message sent by `from_id`: offers, answers and candidates are relayed
/// to their target with the sender named in place of the target.
pub fn route_signaling(message: ClientSignaling, from_id: &str) -> (r: SignalingRoute)
    ensures
        match message {
            ClientSignaling::Offer { to, sdp } => r matches SignalingRoute::Forward { to: t, message: ServerSignaling::Offer { from, sdp: s } }
                && t == to && from@ == from_id@ && s == sdp,
            ClientSignaling::Answer { to, sdp } => r matches SignalingRoute::Forward { to: t, message: ServerSignaling::Answer { from, sdp: s } }
                && t == to && from@ == from_id@ && s == sdp,
            ClientSignaling::Candidate { to, candidate } => r matches SignalingRoute::Forward { to: t, message: ServerSignaling::Candidate { from, candidate: c } }
                && t == to && from@ == from_id@ && c == candidate,
            ClientSignaling::Leave => r is Leave,
        },
{
    match message {
        ClientSignaling::Offer { to, sdp } => SignalingRoute::Forward {
            to,
            message: ServerSignaling::Offer { from: String::from_str(from_id), sdp },
        },
        ClientSignaling::Answer { to, sdp } => SignalingRoute::Forward {
            to,
            message: ServerSignaling::Answer { from: String::from_str(from_id), sdp },
        },
        ClientSignaling::Candidate { to, candidate } => SignalingRoute::Forward {
            to,
            message: ServerSignaling::Candidate { from: String::from_str(from_id), candidate },
        },
        ClientSignaling::Leave => SignalingRoute::Leave,
    }
}

} // verus!
