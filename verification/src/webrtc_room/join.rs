//! Joining a room: the answer to a refused password check, the participant's identity and ICE
//! servers, and the admission of a signalling connection.

use vstd::prelude::*;
use vstd::string::*;
use crate::random::{is_uuid_text, new_uuid_v4};
use crate::storage::error::AppError;
use crate::text::{chars_of, concat2, string_from_range, strings_view};
use crate::turn::models::IceServersResponse;
use crate::webrtc_room::models::{IceServerConfig, ServerSignaling};
use crate::webrtc_room::room_manager::RoomManager;
use crate::webrtc_room::room_service::RoomError;
use crate::webrtc_room::token::{RoomTokenClaims, TokenError};

verus! {

/// The error a refused join is answered with.
pub fn join_error(e: RoomError) -> (r: AppError)
    ensures
        match e {
            RoomError::NotFound => r.is_not_found("房间不存在"@),
            RoomError::InvalidPassword => r is Unauthorized,
            RoomError::Expired => r.is_bad_request("房间已过期"@),
            RoomError::RoomFull => r.is_bad_request("房间已满"@),
            RoomError::NotCreator => r is Forbidden,
        },
{
    match e {
        RoomError::NotFound => AppError::NotFound(String::from_str("房间不存在")),
        RoomError::InvalidPassword => AppError::Unauthorized,
        RoomError::Expired => AppError::BadRequest(String::from_str("房间已过期")),
        RoomError::RoomFull => AppError::BadRequest(String::from_str("房间已满")),
        RoomError::NotCreator => AppError::Forbidden,
    }
}

/// A participant id: `p_` and the first eight hexadecimal digits of a UUID.
pub open spec fn is_participant_id(s: Seq<char>) -> bool {
    exists|u: Seq<char>| is_uuid_text(u) && s == "p_"@ + #[trigger] u.take(8)
}

/// A fresh participant id from a random UUID.
pub fn new_participant_id() -> (r: String)
    ensures
        is_participant_id(r@),
{
    let uuid = new_uuid_v4();
    let chars = chars_of(uuid.as_str());
    let head = string_from_range(&chars, 0, 8);
    let r = concat2("p_", head.as_str());
    proof {
        assert(head@ == uuid@.take(8));
    }
    r
}

/// The user name a guest participant's TURN credentials are issued under.
pub fn guest_user_id(participant_id: &str) -> (r: String)
    ensures
        r@ == "guest_"@ + participant_id@,
{
    concat2("guest_", participant_id)
}

/// The public STUN servers.
pub open spec fn public_stun_urls() -> Seq<Seq<char>> {
    seq!["stun:stun.l.google.com:19302"@, "stun:stun1.l.google.com:19302"@]
}

/// The ICE servers of a participant when no TURN node can be offered: the public STUN
/// servers only.
pub fn stun_only_servers() -> (r: Vec<IceServerConfig>)
    ensures
        r@.len() == 1,
        strings_view(r@[0].urls@) == public_stun_urls(),
        r@[0].username is None,
        r@[0].credential is None,
{
    let urls = vec![
        String::from_str("stun:stun.l.google.com:19302"),
        String::from_str("stun:stun1.l.google.com:19302"),
    ];
    proof {
        assert(strings_view(urls@) =~= public_stun_urls());
    }
    let mut r: Vec<IceServerConfig> = Vec::new();
    r.push(IceServerConfig { urls, username: None, credential: None });
    r
}

/// A copy of a list of strings.
fn copy_strings(v: &Vec<String>) -> (r: Vec<String>)
    ensures
        r@ == v@,
{
    let mut r: Vec<String> = Vec::new();
    let mut i: usize = 0;
    while i < v.len()
        invariant
            i <= v@.len(),
            r@ == v@.take(i as int),
        decreases v@.len() - i,
    {
        r.push(v[i].clone());
        assert(v@.take(i + 1) == v@.take(i as int).push(v@[i as int]));
        i = i + 1;
    }
    assert(v@.take(v@.len() as int) == v@);
    r
}

/// A copy of an optional string.
fn copy_opt(o: &Option<String>) -> (r: Option<String>)
    ensures
        r == *o,
{
    match o {
        Some(s) => Some(s.clone()),
        None => None,
    }
}

/// The ICE servers of a participant from a credential answer: the same servers, in the same
/// order, with their URLs, user names and passwords.
pub fn room_ice_servers(response: IceServersResponse) -> (r: Vec<IceServerConfig>)
    ensures
        r@.len() == response.ice_servers@.len(),
        forall|i: int| 0 <= i < r@.len() ==> (#[trigger] r@[i]).urls@ == response.ice_servers@[i].urls@
            && r@[i].username == response.ice_servers@[i].username
            && r@[i].credential == response.ice_servers@[i].credential,
{
    let servers = response.ice_servers;
    let mut r: Vec<IceServerConfig> = Vec::new();
    let mut i: usize = 0;
    while i < servers.len()
        invariant
            i <= servers@.len(),
            r@.len() == i,
            servers@ == response.ice_servers@,
            forall|k: int| 0 <= k < i ==> (#[trigger] r@[k]).urls@ == servers@[k].urls@
                && r@[k].username == servers@[k].username
                && r@[k].credential == servers@[k].credential,
        decreases servers@.len() - i,
    {
        let s = &servers[i];
        r.push(IceServerConfig { urls: copy_strings(&s.urls), username: copy_opt(&s.username), credential: copy_opt(&s.credential) });
        i = i + 1;
    }
    r
}

/// The ICE servers handed to a joining participant: those of the TURN credential answer when
/// there is one, else the public STUN servers only.
pub fn join_ice_servers(turn_answer: Option<IceServersResponse>) -> (r: Vec<IceServerConfig>)
    ensures
        match turn_answer {
            Some(resp) => r@.len() == resp.ice_servers@.len()
                && forall|i: int| 0 <= i < r@.len() ==> (#[trigger] r@[i]).urls@ == resp.ice_servers@[i].urls@
                    && r@[i].username == resp.ice_servers@[i].username
                    && r@[i].credential == resp.ice_servers@[i].credential,
            None => r@.len() == 1 && strings_view(r@[0].urls@) == public_stun_urls()
                && r@[0].username is None && r@[0].credential is None,
        },
{
    match turn_answer {
        Some(resp) => room_ice_servers(resp),
        None => stun_only_servers(),
    }
}

/// Whether a signalling connection to `room_id` with a token whose check gave `verdict` is
/// admitted: the token must be valid, be for this room, and the room must be open. A refusal
/// gives the HTTP status and the text of the answer.
pub fn admit_signaling(
    manager: &RoomManager,
    verdict: Result<RoomTokenClaims, TokenError>,
    room_id: &str,
) -> (r: Result<RoomTokenClaims, (u16, String)>)
    requires
        manager.wf(),
    ensures
        match verdict {
            Err(TokenError::Expired) => r matches Err((status, text)) && status == 401 && text@ == "Token 已过期"@,
            Err(_) => r matches Err((status, text)) && status == 401 && text@ == "Token 无效"@,
            Ok(c) => if c.room_id@ != room_id@ {
                r matches Err((status, text)) && status == 403 && text@ == "Token 与房间不匹配"@
            } else if !manager.rooms().contains_key(room_id@) {
                r matches Err((status, text)) && status == 404 && text@ == "房间不存在"@
            } else {
                r == Ok::<RoomTokenClaims, (u16, String)>(c)
            },
        },
{
    let claims = match verdict {
        Ok(c) => c,
        Err(TokenError::Expired) => return Err((401, String::from_str("Token 已过期"))),
        Err(_) => return Err((401, String::from_str("Token 无效"))),
    };
    if !crate::text::str_eq(claims.room_id.as_str(), room_id) {
        return Err((403, String::from_str("Token 与房间不匹配")));
    }
    if manager.get_room(room_id).is_none() {
        return Err((404, String::from_str("房间不存在")));
    }
    Ok(claims)
}

/// The answer to a signalling message that could not be read.
pub fn invalid_signal_reply() -> (r: ServerSignaling)
    ensures
        r matches ServerSignaling::Error { code, message } && code@ == "invalid_message"@ && message@ == "消息格式无效"@,
{
    ServerSignaling::Error { code: String::from_str("invalid_message"), message: String::from_str("消息格式无效") }
}

/// The answer to a ping on a signalling connection.
pub fn pong_reply() -> (r: ServerSignaling)
    ensures
        r matches ServerSignaling::Error { code, message } && code@ == "pong"@ && message@.len() == 0,
{
    ServerSignaling::Error { code: String::from_str("pong"), message: String::new() }
}

} // verus!
