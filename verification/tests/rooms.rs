use axum::extract::ws::Message;
use chat_backend::storage::error::AppError;
use chat_backend::turn::models::{IceServer, IceServersResponse};
use chat_backend::webrtc_room::join::{
    admit_signaling, guest_user_id, invalid_signal_reply, join_error, join_ice_servers,
    new_participant_id, pong_reply, room_ice_servers, stun_only_servers,
};
use chat_backend::webrtc_room::models::{
    ClientSignaling, CreateRoomRequest, IceCandidate, Participant, Room, ServerSignaling,
    SignalingRoute, route_signaling,
};
use chat_backend::webrtc_room::room_manager::RoomManager;
use chat_backend::webrtc_room::room_service::{new_room, RoomError, RoomService};
use chat_backend::webrtc_room::token::{RoomTokenClaims, RoomTokenService, TokenError};
use tokio::sync::mpsc::{unbounded_channel, UnboundedReceiver};

fn room(id: &str, expires_at: i64) -> Room {
    Room {
        room_id: id.to_string(),
        name: "r".to_string(),
        creator_id: "owner".to_string(),
        password_hash: "h".to_string(),
        max_participants: 10,
        created_at: 0,
        expires_at,
    }
}

fn participant(id: &str) -> Participant {
    Participant {
        participant_id: id.to_string(),
        display_name: format!("name-{}", id),
        user_id: None,
        is_creator: false,
        joined_at: 0,
    }
}

fn texts(rx: &mut UnboundedReceiver<Message>) -> Vec<String> {
    let mut out = Vec::new();
    while let Ok(m) = rx.try_recv() {
        if let Message::Text(t) = m {
            out.push(t.to_string());
        }
    }
    out
}

fn request(password: Option<&str>, max: Option<usize>, minutes: Option<u32>) -> CreateRoomRequest {
    CreateRoomRequest {
        name: None,
        password: password.map(|p| p.to_string()),
        max_participants: max,
        expires_minutes: minutes,
    }
}

#[test]
fn created_room_is_found_and_removed() {
    let mut m = RoomManager::new();
    assert!(m.get_room("R1").is_none());
    m.create_room(room("R1", 100));
    let s = m.get_room("R1").unwrap();
    assert_eq!(s.room.room_id, "R1");
    assert_eq!(s.participant_count, 0);
    assert_eq!(m.total_rooms(), 1);
    m.remove_room("R1", "closed");
    assert!(m.get_room("R1").is_none());
    assert_eq!(m.total_rooms(), 0);
    m.remove_room("R1", "closed");
    assert_eq!(m.total_rooms(), 0);
}

#[test]
fn participants_join_leave_and_are_told() {
    let mut m = RoomManager::new();
    m.create_room(room("R", 100));
    let (tx1, mut rx1) = unbounded_channel();
    let (tx2, mut rx2) = unbounded_channel();
    assert!(m.add_participant("missing", participant("a"), tx1.clone(), "joined-a").is_none());
    let before = m.add_participant("R", participant("a"), tx1, "joined-a").unwrap();
    assert!(before.is_empty());
    let before = m.add_participant("R", participant("b"), tx2, "joined-b").unwrap();
    assert_eq!(before.len(), 1);
    assert_eq!(before[0].id, "a");
    assert_eq!(before[0].name, "name-a");
    assert_eq!(m.get_room("R").unwrap().participant_count, 2);
    assert_eq!(texts(&mut rx1), vec!["joined-b".to_string()]);
    assert!(texts(&mut rx2).is_empty());

    assert!(m.send_to_participant("R", "b", "hello-b"));
    assert!(!m.send_to_participant("R", "zzz", "x"));
    assert!(m.forward_signaling("R", "b", "a", "offer"));
    assert_eq!(texts(&mut rx2), vec!["hello-b".to_string()]);
    assert_eq!(texts(&mut rx1), vec!["offer".to_string()]);

    let mut names: Vec<String> = m.get_participants("R").into_iter().map(|p| p.id).collect();
    names.sort();
    assert_eq!(names, vec!["a".to_string(), "b".to_string()]);

    m.remove_participant("R", "a", "left-a");
    assert_eq!(texts(&mut rx2), vec!["left-a".to_string()]);
    m.remove_participant("R", "a", "left-a-again");
    assert!(texts(&mut rx2).is_empty());
    assert_eq!(m.get_room("R").unwrap().participant_count, 1);
    assert!(m.get_participants("nowhere").is_empty());

    m.remove_room("R", "closed");
    assert_eq!(texts(&mut rx2), vec!["closed".to_string()]);
}

#[test]
fn expired_rooms_are_cleaned_up() {
    let mut m = RoomManager::new();
    m.create_room(room("OLD", 50));
    m.create_room(room("NOW", 100));
    m.create_room(room("NEW", 200));
    let (tx, mut rx) = unbounded_channel();
    m.add_participant("OLD", participant("p"), tx, "j");
    m.cleanup_expired_rooms_at(100, "bye");
    assert!(m.get_room("OLD").is_none());
    assert!(m.get_room("NOW").is_some());
    assert!(m.get_room("NEW").is_some());
    assert_eq!(m.total_rooms(), 2);
    assert_eq!(texts(&mut rx), vec!["bye".to_string()]);
}

#[test]
fn a_new_room_from_a_request() {
    let (r, resp) = new_room("abcdefghijk", request(Some("1234"), Some(80), Some(5000)), "ROOM01".to_string(), "1234".to_string(), 1000);
    assert_eq!(r.name, "abcdefgh的房间");
    assert_eq!(r.max_participants, 50);
    assert_eq!(r.expires_at, 1000 + 1440 * 60);
    assert_eq!(r.created_at, 1000);
    assert_eq!(r.password_hash, "03ac674216f3e15c761ee1a5e255f067953623c8b388b4459e13f978d7c846f4");
    assert_eq!(resp.password, "1234");
    assert_eq!(resp.room_id, "ROOM01");
    let (r, _) = new_room("ab", request(None, None, None), "X".to_string(), "p".to_string(), 0);
    assert_eq!(r.name, "ab的房间");
    assert_eq!(r.max_participants, 10);
    assert_eq!(r.expires_at, 7200);
}

#[test]
fn room_service_creates_and_checks_passwords() {
    let mut s = RoomService::new(RoomManager::new());
    let resp = s.create_room_at("owner", request(Some("secret"), Some(1), None), 1000);
    assert_eq!(resp.room_id.len(), 6);
    assert!(resp.room_id.chars().all(|c| "ABCDEFGHJKLMNPQRSTUVWXYZ23456789".contains(c)));
    assert_eq!(resp.password, "secret");
    let id = resp.room_id.clone();
    assert_eq!(s.verify_password_at(&id, "wrong", 1000, "c").unwrap_err(), RoomError::InvalidPassword);
    assert_eq!(s.verify_password_at("NOPE00", "secret", 1000, "c").unwrap_err(), RoomError::NotFound);
    let state = s.verify_password_at(&id, "secret", 1000, "c").unwrap();
    assert_eq!(state.participant_count, 0);
    let (tx, _rx) = unbounded_channel();
    s.room_manager_mut().add_participant(&id, participant("p"), tx, "j");
    assert_eq!(s.verify_password_at(&id, "secret", 1000, "c").unwrap_err(), RoomError::RoomFull);
    assert_eq!(s.close_room(&id, "intruder", "c").unwrap_err(), RoomError::NotCreator);
    assert!(s.close_room(&id, "owner", "c").is_ok());
    assert!(s.get_room(&id).is_none());
    assert_eq!(s.close_room(&id, "owner", "c").unwrap_err(), RoomError::NotFound);

    let resp = s.create_room_at("owner", request(None, None, Some(1)), 1000);
    assert_eq!(resp.password.len(), 6);
    assert!(resp.password.chars().all(|c| c.is_ascii_digit()));
    assert_eq!(resp.expires_at, 1060);
    assert_eq!(s.verify_password_at(&resp.room_id, &resp.password, 1061, "c").unwrap_err(), RoomError::Expired);
    assert!(s.get_room(&resp.room_id).is_none());
    assert_eq!(RoomError::RoomFull.message(), "房间已满");
    assert_eq!(RoomError::NotCreator.message(), "只有创建者可以执行此操作");
}

#[test]
fn join_answers() {
    assert!(matches!(join_error(RoomError::NotFound), AppError::NotFound(m) if m == "房间不存在"));
    assert!(matches!(join_error(RoomError::InvalidPassword), AppError::Unauthorized));
    assert!(matches!(join_error(RoomError::Expired), AppError::BadRequest(m) if m == "房间已过期"));
    assert!(matches!(join_error(RoomError::RoomFull), AppError::BadRequest(m) if m == "房间已满"));
    assert!(matches!(join_error(RoomError::NotCreator), AppError::Forbidden));
    let p = new_participant_id();
    assert_eq!(p.len(), 10);
    assert!(p.starts_with("p_"));
    assert!(p[2..].chars().all(|c| c.is_ascii_hexdigit()));
    assert_eq!(guest_user_id("p_1"), "guest_p_1");
    let stun = stun_only_servers();
    assert_eq!(stun.len(), 1);
    assert_eq!(stun[0].urls, vec!["stun:stun.l.google.com:19302", "stun:stun1.l.google.com:19302"]);
    let resp = IceServersResponse {
        ice_servers: vec![IceServer {
            urls: vec!["turn:1.2.3.4:3478".to_string()],
            username: Some("u".to_string()),
            credential: Some("c".to_string()),
            credential_type: Some("password".to_string()),
        }],
        expires_at: 5,
    };
    let cfg = room_ice_servers(resp);
    assert_eq!(cfg.len(), 1);
    assert_eq!(cfg[0].urls, vec!["turn:1.2.3.4:3478"]);
    assert_eq!(cfg[0].username.as_deref(), Some("u"));
}

#[test]
fn signalling_admission_and_routes() {
    let mut m = RoomManager::new();
    m.create_room(room("R", 100));
    let claims = |room: &str| RoomTokenClaims {
        participant_id: "p".to_string(),
        room_id: room.to_string(),
        display_name: "n".to_string(),
        is_creator: false,
        user_id: None,
        exp: 0,
    };
    assert_eq!(admit_signaling(&m, Err(TokenError::Expired), "R").unwrap_err(), (401, "Token 已过期".to_string()));
    assert_eq!(admit_signaling(&m, Err(TokenError::InvalidSignature), "R").unwrap_err(), (401, "Token 无效".to_string()));
    assert_eq!(admit_signaling(&m, Ok(claims("S")), "R").unwrap_err(), (403, "Token 与房间不匹配".to_string()));
    assert_eq!(admit_signaling(&m, Ok(claims("Q")), "Q").unwrap_err(), (404, "房间不存在".to_string()));
    assert_eq!(admit_signaling(&m, Ok(claims("R")), "R").unwrap().participant_id, "p");

    match route_signaling(ClientSignaling::Offer { to: "b".to_string(), sdp: "v=0".to_string() }, "a") {
        SignalingRoute::Forward { to, message: ServerSignaling::Offer { from, sdp } } => {
            assert_eq!((to.as_str(), from.as_str(), sdp.as_str()), ("b", "a", "v=0"));
        }
        _ => panic!("expected an offer"),
    }
    let cand = IceCandidate { candidate: "c".to_string(), sdp_m_line_index: Some(0), sdp_mid: None };
    match route_signaling(ClientSignaling::Candidate { to: "b".to_string(), candidate: cand }, "a") {
        SignalingRoute::Forward { to, message: ServerSignaling::Candidate { from, candidate } } => {
            assert_eq!((to.as_str(), from.as_str(), candidate.candidate.as_str()), ("b", "a", "c"));
        }
        _ => panic!("expected a candidate"),
    }
    assert!(matches!(route_signaling(ClientSignaling::Leave, "a"), SignalingRoute::Leave));
    assert!(matches!(invalid_signal_reply(), ServerSignaling::Error { code, message } if code == "invalid_message" && message == "消息格式无效"));
    assert!(matches!(pong_reply(), ServerSignaling::Error { code, message } if code == "pong" && message.is_empty()));
}

#[test]
fn room_message_targets() {
    let mut m = RoomManager::new();
    m.create_room(room("R", 100));
    let (t1, _r1) = unbounded_channel();
    let (t2, _r2) = unbounded_channel();
    m.add_participant("R", participant("a"), t1, "j");
    m.add_participant("R", participant("b"), t2, "j");
    let mut ids: Vec<String> = m.room_connections("R").into_iter().map(|c| c.participant.participant_id).collect();
    ids.sort();
    assert_eq!(ids, vec!["a".to_string(), "b".to_string()]);
    let others: Vec<String> = m.room_connections_except("R", "a").into_iter().map(|c| c.participant.participant_id).collect();
    assert_eq!(others, vec!["b".to_string()]);
    assert!(m.room_connections("missing").is_empty());
    assert_eq!(m.participant_connection("R", "b").map(|c| c.participant.participant_id), Some("b".to_string()));
    assert!(m.participant_connection("R", "z").is_none());
}

#[test]
fn joining_ice_servers() {
    let stun = join_ice_servers(None);
    assert_eq!(stun.len(), 1);
    assert_eq!(stun[0].urls, vec!["stun:stun.l.google.com:19302".to_string(), "stun:stun1.l.google.com:19302".to_string()]);
    assert!(stun[0].username.is_none() && stun[0].credential.is_none());
    let answer = IceServersResponse {
        ice_servers: vec![IceServer {
            urls: vec!["turn:1.2.3.4:3478".to_string()],
            username: Some("100:u".to_string()),
            credential: Some("c".to_string()),
            credential_type: Some("password".to_string()),
        }],
        expires_at: 100,
    };
    let turn = join_ice_servers(Some(answer));
    assert_eq!(turn.len(), 1);
    assert_eq!(turn[0].urls, vec!["turn:1.2.3.4:3478".to_string()]);
    assert_eq!(turn[0].username.as_deref(), Some("100:u"));
    assert_eq!(RoomTokenService::new("s".to_string(), 3600).ttl_secs(), 3600);
}
