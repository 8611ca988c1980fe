use axum::extract::ws::Message;
use chat_backend::websocket::connection_manager::{count_delivered, ConnectionManager};
use chat_backend::websocket::models::{truncate_preview, unread_total, ClientMessage, SourceType};
use chat_backend::websocket::session::{
    client_action, mark_read_follow_up, mark_read_step, online_members, ClientAction, MarkReadStep,
};
use tokio::sync::mpsc::{unbounded_channel, UnboundedReceiver};

fn texts(rx: &mut UnboundedReceiver<Message>) -> Vec<String> {
    let mut out = Vec::new();
    while let Ok(m) = rx.try_recv() {
        if let Message::Text(t) = m {
            out.push(t.to_string());
        }
    }
    out
}

#[test]
fn test_connection_manager() {
    let mut manager = ConnectionManager::new();

    let (tx1, _rx1) = unbounded_channel();
    let (tx2, _rx2) = unbounded_channel();

    manager.register("user1", "device1", tx1);
    assert!(manager.is_online("user1"));
    assert_eq!(manager.online_user_count(), 1);

    manager.register("user1", "device2", tx2);
    assert_eq!(manager.online_user_count(), 1);
    assert_eq!(manager.total_connection_count(), 2);

    let devices = manager.get_user_devices("user1");
    assert_eq!(devices.len(), 2);

    manager.unregister("user1", "device1");
    assert!(manager.is_online("user1"));
    assert_eq!(manager.total_connection_count(), 1);

    manager.unregister("user1", "device2");
    assert!(!manager.is_online("user1"));
    assert_eq!(manager.online_user_count(), 0);
}

#[test]
fn connecting_then_disconnecting_restores_state() {
    let mut m = ConnectionManager::new();
    let (tx, _rx) = unbounded_channel();
    m.register("u", "d1", tx);
    let (tx, _rx2) = unbounded_channel();
    m.register("v", "d9", tx);
    m.unregister("v", "d9");
    assert!(!m.is_online("v"));
    assert_eq!(m.get_online_users(), vec!["u".to_string()]);
    assert_eq!(m.online_user_count(), 1);
    m.unregister("nobody", "x");
    assert_eq!(m.online_user_count(), 1);
}

#[test]
fn re_registering_a_device_replaces_it() {
    let mut m = ConnectionManager::new();
    let (tx1, mut rx1) = unbounded_channel();
    let (tx2, mut rx2) = unbounded_channel();
    m.register("u", "d", tx1);
    m.register("u", "d", tx2);
    assert_eq!(m.get_user_devices("u"), vec!["d".to_string()]);
    assert_eq!(m.total_connection_count(), 1);
    assert_eq!(m.send_to_user("u", "hi"), 1);
    assert!(texts(&mut rx1).is_empty());
    assert_eq!(texts(&mut rx2), vec!["hi".to_string()]);
}

#[test]
fn sending_to_users_and_devices() {
    let mut m = ConnectionManager::new();
    let (a1, mut ra1) = unbounded_channel();
    let (a2, mut ra2) = unbounded_channel();
    let (b1, mut rb1) = unbounded_channel();
    m.register("a", "1", a1);
    m.register("a", "2", a2);
    m.register("b", "1", b1);
    assert_eq!(m.send_to_users(&vec!["a".to_string(), "b".to_string(), "c".to_string()], "x"), 3);
    assert!(m.send_to_device("a", "2", "only-2"));
    assert!(!m.send_to_device("a", "9", "none"));
    assert_eq!(m.send_to_other_devices("a", "1", "sync"), 1);
    assert_eq!(texts(&mut ra1), vec!["x".to_string()]);
    assert_eq!(texts(&mut ra2), vec!["x".to_string(), "only-2".to_string(), "sync".to_string()]);
    assert_eq!(texts(&mut rb1), vec!["x".to_string()]);
    drop(rb1);
    assert_eq!(m.send_to_user("b", "lost"), 0);
}

#[test]
fn online_members_keep_order() {
    let mut m = ConnectionManager::new();
    let (t1, _r1) = unbounded_channel();
    let (t2, _r2) = unbounded_channel();
    m.register("c", "1", t1);
    m.register("a", "1", t2);
    let members = vec!["a".to_string(), "b".to_string(), "c".to_string()];
    assert_eq!(online_members(&m, &members), vec!["a".to_string(), "c".to_string()]);
}

#[test]
fn previews_and_totals() {
    assert_eq!(truncate_preview("hello", 5), "hello");
    assert_eq!(truncate_preview("hello world", 5), "hello...");
    assert_eq!(truncate_preview("你好世界你好", 4), "你好世界...");
    assert!(truncate_preview(&"x".repeat(80), 50).chars().count() <= 53);
    assert_eq!(unread_total(&vec![1, 2, 3], &vec![10, -1]), 15);
    assert_eq!(unread_total(&vec![], &vec![]), 0);
    assert_eq!(SourceType::Friend.to_string(), "friend");
    assert_eq!(SourceType::Group.to_string(), "group");
}

#[test]
fn client_messages_and_read_marks() {
    assert!(matches!(client_action(None), ClientAction::ReplyError { code, message } if code == "invalid_message" && message == "Failed to parse message"));
    assert!(matches!(client_action(Some(ClientMessage::Ping)), ClientAction::Pong));
    assert!(matches!(client_action(Some(ClientMessage::SubscribePresence { user_ids: vec![] })), ClientAction::Ignore));
    match client_action(Some(ClientMessage::MarkRead { target_type: SourceType::Group, target_id: "g".to_string() })) {
        ClientAction::MarkRead { target_type, target_id } => {
            assert_eq!(target_type, SourceType::Group);
            assert_eq!(target_id, "g");
        }
        _ => panic!("expected a read mark"),
    }
    assert!(matches!(mark_read_step(SourceType::Friend, "bob"), MarkReadStep::Friend { friend_id } if friend_id == "bob"));
    match mark_read_step(SourceType::Group, "67e55044-10b1-426f-9247-bb680e5fe0c8") {
        MarkReadStep::Group { group_id } => assert_eq!(group_id, 0x67e5504410b1426f9247bb680e5fe0c8),
        _ => panic!("expected a group"),
    }
    assert!(matches!(mark_read_step(SourceType::Group, "not-a-uuid"), MarkReadStep::Refuse { code, message } if code == "invalid_group_id" && message == "Invalid group ID format"));
    let f = mark_read_follow_up(SourceType::Friend, true);
    assert!(f.error.is_none() && f.sync_other_devices && f.notify_friend);
    let g = mark_read_follow_up(SourceType::Group, true);
    assert!(g.sync_other_devices && !g.notify_friend);
    let e = mark_read_follow_up(SourceType::Friend, false);
    assert_eq!(e.error, Some(("mark_read_failed".to_string(), "Failed to mark messages as read".to_string())));
    assert!(!e.sync_other_devices && !e.notify_friend);
}

#[test]
fn message_targets_and_delivery_counts() {
    let mut m = ConnectionManager::new();
    let (a, _ra) = unbounded_channel();
    let (b, rb) = unbounded_channel();
    m.register("u", "d1", a);
    m.register("u", "d2", b);
    let all: Vec<String> = m.user_connections("u").into_iter().map(|c| c.device_id).collect();
    assert_eq!(all, vec!["d1".to_string(), "d2".to_string()]);
    let others: Vec<String> = m.other_device_connections("u", "d1").into_iter().map(|c| c.device_id).collect();
    assert_eq!(others, vec!["d2".to_string()]);
    assert_eq!(m.device_connection("u", "d2").map(|c| c.device_id), Some("d2".to_string()));
    assert!(m.device_connection("u", "d3").is_none());
    assert!(m.user_connections("nobody").is_empty());
    assert_eq!(count_delivered(&vec![true, false, true]), 2);
    assert_eq!(count_delivered(&Vec::new()), 0);
    drop(rb);
    assert_eq!(m.send_to_user("u", "hi"), 1);
    assert!(!m.send_to_device("u", "d2", "hi"));
    assert_eq!(m.send_to_other_devices("u", "d2", "hi"), 1);
}
