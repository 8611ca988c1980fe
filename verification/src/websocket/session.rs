//! What a websocket connection does with each client message, and the steps of marking a
//! conversation read.
//!
//! The connection's loop reads a message, asks here what to do, and carries it out: replies go
//! to the device, reads are recorded in the database, and read receipts go to the user's other
//! devices and, for a friend conversation, to the friend.

use vstd::prelude::*;
use vstd::string::*;
use crate::text::strings_view;
use crate::websocket::connection_manager::ConnectionManager;
use crate::websocket::models::{ClientMessage, SourceType};

verus! {

/// The 128-bit value of a UUID's text, as `uuid::Uuid::parse_str` reads it, or `None` when the
/// text is not a UUID.
pub uninterp spec fn uuid_parsed(s: Seq<char>) -> Option<u128>;

/// Reads a UUID from its text (wraps `uuid::Uuid::parse_str`, taking the value as a `u128`).
/// The hyphenated form that `uuid` writes is always read.
#[verifier::external_body]
fn parse_uuid(s: &str) -> (r: Option<u128>)
    ensures
        r == uuid_parsed(s@),
        crate::random::is_uuid_text(s@) ==> r is Some,
{
    uuid::Uuid::parse_str(s).ok().map(|u| u.as_u128())
}

/// What a connection does with a client message (`None`: one that could not be read).
#[derive(Debug, Clone)]
pub enum ClientAction {
    /// Answer the device with an error.
    ReplyError { code: String, message: String },
    /// Answer the device with the server's time.
    Pong,
    /// Mark a conversation read for the user.
    MarkRead { target_type: SourceType, target_id: String },
    /// Nothing to do.
    Ignore,
}

/// The action for a client message: an unreadable one is answered with an error, a ping with
/// the time, a read mark is carried out, a presence subscription is not served yet.
pub fn client_action(message: Option<ClientMessage>) -> (r: ClientAction)
    ensures
        match message {
            None => r matches ClientAction::ReplyError { code, message }
                && code@ == "invalid_message"@ && message@ == "Failed to parse message"@,
            Some(ClientMessage::Ping) => r is Pong,
            Some(ClientMessage::MarkRead { target_type, target_id }) => r matches ClientAction::MarkRead { target_type: t, target_id: i }
                && t == target_type && i == target_id,
            Some(ClientMessage::SubscribePresence { .. }) => r is Ignore,
        },
{
    match message {
        None => ClientAction::ReplyError {
            code: String::from_str("invalid_message"),
            message: String::from_str("Failed to parse message"),
        },
        Some(ClientMessage::Ping) => ClientAction::Pong,
        Some(ClientMessage::MarkRead { target_type, target_id }) => ClientAction::MarkRead { target_type, target_id },
        Some(ClientMessage::SubscribePresence { .. }) => ClientAction::Ignore,
    }
}

/// How a read mark is recorded.
#[derive(Debug, Clone)]
pub enum MarkReadStep {
    /// Reset the unread count of the conversation with the friend.
    Friend { friend_id: String },
    /// Reset the unread count of the group with this UUID value.
    Group { group_id: u128 },
    /// Answer the device with an error and record nothing.
    Refuse { code: String, message: String },
}

/// How marking `target_id` of kind `target_type` read is recorded: a friend directly, a group
/// by its UUID, which must be readable.
pub fn mark_read_step(target_type: SourceType, target_id: &str) -> (r: MarkReadStep)
    ensures
        match target_type {
            SourceType::Friend => r matches MarkReadStep::Friend { friend_id } && friend_id@ == target_id@,
            SourceType::Group => match uuid_parsed(target_id@) {
                Some(g) => r matches MarkReadStep::Group { group_id } && group_id == g,
                None => r matches MarkReadStep::Refuse { code, message }
                    && code@ == "invalid_group_id"@ && message@ == "Invalid group ID format"@,
            },
        },
{
    match target_type {
        SourceType::Friend => MarkReadStep::Friend { friend_id: String::from_str(target_id) },
        SourceType::Group => match parse_uuid(target_id) {
            Some(g) => MarkReadStep::Group { group_id: g },
            None => MarkReadStep::Refuse {
                code: String::from_str("invalid_group_id"),
                message: String::from_str("Invalid group ID format"),
            },
        },
    }
}

/// What follows a recorded read mark.
#[derive(Debug, Clone)]
pub struct ReadFollowUp {
    /// The error the device is answered with, when recording failed.
    pub error: Option<(String, String)>,
    /// Whether the user's other devices are told of the read.
    pub sync_other_devices: bool,
    /// Whether the friend is told of the read.
    pub notify_friend: bool,
}

/// What follows recording a read mark: a failure is answered with an error and goes no
/// further; otherwise the user's other devices are told, and for a friend conversation the
/// friend too.
pub fn mark_read_follow_up(target_type: SourceType, recorded: bool) -> (r: ReadFollowUp)
    ensures
        recorded ==> r.error is None && r.sync_other_devices && r.notify_friend == (target_type == SourceType::Friend),
        !recorded ==> (r.error matches Some((code, message)) && code@ == "mark_read_failed"@
            && message@ == "Failed to mark messages as read"@) && !r.sync_other_devices && !r.notify_friend,
{
    if recorded {
        ReadFollowUp {
            error: None,
            sync_other_devices: true,
            notify_friend: target_type == SourceType::Friend,
        }
    } else {
        ReadFollowUp {
            error: Some((String::from_str("mark_read_failed"), String::from_str("Failed to mark messages as read"))),
            sync_other_devices: false,
            notify_friend: false,
        }
    }
}

/// The members of a conversation that are online, in the given order: those a new message is
/// pushed to.
pub fn online_members(manager: &ConnectionManager, members: &Vec<String>) -> (r: Vec<String>)
    requires
        manager.wf(),
    ensures
        strings_view(r@) == strings_view(members@).filter(|u: Seq<char>| manager.users().contains_key(u)),
{
    let ghost pred = |u: Seq<char>| manager.users().contains_key(u);
    let mut r: Vec<String> = Vec::new();
    let mut i: usize = 0;
    while i < members.len()
        invariant
            i <= members@.len(),
            manager.wf(),
            pred == (|u: Seq<char>| manager.users().contains_key(u)),
            strings_view(r@) == strings_view(members@).take(i as int).filter(pred),
        decreases members@.len() - i,
    {
        let ghost before = r@;
        proof {
            assert(strings_view(members@).take(i + 1) == strings_view(members@).take(i as int).push(members@[i as int]@));
            strings_view(members@).take(i as int).lemma_filter_push(members@[i as int]@, pred);
        }
        if manager.is_online(members[i].as_str()) {
            r.push(members[i].clone());
            assert(strings_view(r@) =~= strings_view(before).push(members@[i as int]@));
        }
        i = i + 1;
    }
    assert(strings_view(members@).take(members@.len() as int) == strings_view(members@));
    r
}

} // verus!
