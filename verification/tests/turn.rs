use axum::extract::ws::Message;
use base64::Engine;
use chat_backend::turn::balance::{is_nearby_region, region_bonus};
use chat_backend::turn::coordinator::{
    config_message, end_agent_connection, handle_agent_message_at, invalid_message_reply,
    secret_update_message,
};
use chat_backend::turn::credentials::CredentialService;
use chat_backend::turn::models::{
    AgentMessage, CoordinatorMessage, NodeCapabilities, NodeCounters, NodeState, NodeStatus, TurnPorts,
};
use chat_backend::turn::registry::NodeRegistry;
use chat_backend::turn::secrets::{generate_secret, SecretManager};
use hmac::Mac;
use tokio::sync::mpsc::{unbounded_channel, UnboundedReceiver};

fn texts(rx: &mut UnboundedReceiver<Message>) -> Vec<String> {
    let mut out = Vec::new();
    while let Ok(m) = rx.try_recv() {
        if let Message::Text(t) = m {
            out.push(t.to_string());
        }
    }
    out
}

fn ports() -> TurnPorts {
    TurnPorts { listening: 3478, tls: 5349, min_relay: 49152, max_relay: 65535 }
}

fn caps(tcp: bool, tls: bool) -> NodeCapabilities {
    NodeCapabilities { supports_tcp: tcp, supports_tls: tls, supports_dtls: true, max_bandwidth_mbps: 1000 }
}

fn node(tcp: bool, tls: bool) -> NodeState {
    NodeState {
        node_id: "n1".to_string(),
        region: "cn-east".to_string(),
        public_ip: "1.2.3.4".to_string(),
        ports: ports(),
        capabilities: caps(tcp, tls),
        counters: NodeCounters::zero(),
        status: NodeStatus::Active,
        registered_at: 0,
        last_heartbeat: 0,
        config_version: 0,
    }
}

fn expected_credential(secret: &str, username: &str) -> String {
    let mut mac = <hmac::Hmac<sha1::Sha1> as Mac>::new_from_slice(secret.as_bytes()).unwrap();
    mac.update(username.as_bytes());
    base64::engine::general_purpose::STANDARD.encode(mac.finalize().into_bytes())
}

#[test]
fn turn_urls_by_capability() {
    assert_eq!(node(false, false).build_turn_urls(), vec!["turn:1.2.3.4:3478"]);
    assert_eq!(
        node(true, true).build_turn_urls(),
        vec!["turn:1.2.3.4:3478", "turn:1.2.3.4:3478?transport=tcp", "turns:1.2.3.4:5349"]
    );
    assert_eq!(node(false, true).build_turn_urls(), vec!["turn:1.2.3.4:3478", "turns:1.2.3.4:5349"]);
}

#[test]
fn region_bonuses() {
    assert!(is_nearby_region("cn-north", "cn-south"));
    assert!(is_nearby_region("eu-central", "eu-west"));
    assert!(!is_nearby_region("cn-north", "us-west"));
    assert!(!is_nearby_region("mars", "mars"));
    assert_eq!(is_nearby_region("ap-southeast", "ap-northeast"), is_nearby_region("ap-northeast", "ap-southeast"));
    assert_eq!(region_bonus("us-west", Some("us-west")), 30);
    assert_eq!(region_bonus("us-west", Some("us-east")), 15);
    assert_eq!(region_bonus("us-west", Some("eu-west")), 0);
    assert_eq!(region_bonus("mars", Some("mars")), 30);
    assert_eq!(region_bonus("us-west", None), 0);
}

#[test]
fn ice_servers_with_credentials() {
    let service = CredentialService::new(3600, "example.org".to_string());
    assert_eq!(service.get_realm(), "example.org");
    assert_eq!(service.get_credential_ttl(), 3600);
    let urls = vec![vec!["turn:1.2.3.4:3478".to_string()], vec!["turn:5.6.7.8:3478".to_string(), "turns:5.6.7.8:5349".to_string()]];
    let r = service.generate_ice_servers_at("secret", "alice", urls, 1000);
    assert_eq!(r.expires_at, 4600);
    assert_eq!(r.ice_servers.len(), 3);
    let cred = expected_credential("secret", "4600:alice");
    for s in &r.ice_servers[..2] {
        assert_eq!(s.username.as_deref(), Some("4600:alice"));
        assert_eq!(s.credential.as_deref(), Some(cred.as_str()));
        assert_eq!(s.credential_type.as_deref(), Some("password"));
    }
    assert_eq!(r.ice_servers[1].urls, vec!["turn:5.6.7.8:3478", "turns:5.6.7.8:5349"]);
    let stun = &r.ice_servers[2];
    assert_eq!(stun.urls, vec!["stun:stun.l.google.com:19302", "stun:stun1.l.google.com:19302"]);
    assert!(stun.username.is_none() && stun.credential.is_none() && stun.credential_type.is_none());
    assert_ne!(cred, "secret");

    let empty = service.generate_ice_servers_at("secret", "bob", vec![], -5000);
    assert_eq!(empty.expires_at, -1400);
    assert_eq!(empty.ice_servers.len(), 1);

    let secrets = SecretManager::new(24).unwrap();
    let now_based = service.generate_ice_servers(&secrets, "carol", vec![]).unwrap();
    assert_eq!(now_based.ice_servers.len(), 1);
}

#[test]
fn secrets_rotate_and_keep_the_previous() {
    let s = generate_secret();
    assert_eq!(s.len(), 32);
    assert!(s.chars().all(|c| c.is_ascii_alphanumeric()));
    let mut m = SecretManager::new_at(24, "first".to_string(), 1000);
    assert_eq!(m.get_current_secret(), "first");
    assert_eq!(m.get_current_entry().expires_at, 1000 + 48 * 3600);
    assert!(m.get_previous_entry().is_none());
    let e = m.rotate_at("second".to_string(), 2000);
    assert_eq!(e.secret, "second");
    assert_eq!(e.created_at, 2000);
    assert_eq!(e.expires_at, 2000 + 48 * 3600);
    assert_eq!(m.get_current_secret(), "second");
    let prev = m.get_previous_entry().unwrap();
    assert_eq!((prev.secret.as_str(), prev.created_at), ("first", 1000));
    assert_eq!(m.rotation_hours(), 24);
    let rotated = m.rotate().unwrap();
    assert_eq!(m.get_previous_entry().unwrap().secret, "second");
    assert_eq!(m.get_current_secret(), rotated.secret);
    assert!(SecretManager::new(u64::MAX).is_none());
    match secret_update_message(&rotated) {
        CoordinatorMessage::UpdateSecret { secret, effective_at, expires_at } => {
            assert_eq!(secret, rotated.secret);
            assert_eq!(effective_at, rotated.created_at);
            assert_eq!(expires_at, rotated.expires_at);
        }
        _ => panic!("expected a secret update"),
    }
}

#[test]
fn registry_health_and_cleanup() {
    let mut r = NodeRegistry::new(30);
    let (tx, mut rx) = unbounded_channel();
    let id = r.register_at("n1".to_string(), "cn-east".to_string(), "1.2.3.4".to_string(), ports(), caps(true, true), tx, 100);
    assert_eq!(id, "n1");
    assert_eq!(r.node_count(), 1);
    assert!(r.get_healthy_nodes_at(100).is_empty());
    r.update_heartbeat_at("n1", NodeCounters { active_sessions: 3, total_allocations: 9, uptime_seconds: 60 }, 110);
    let healthy = r.get_healthy_nodes_at(139);
    assert_eq!(healthy.len(), 1);
    assert_eq!(healthy[0].counters.active_sessions, 3);
    assert_eq!(r.healthy_node_count_at(139), 1);
    assert_eq!(r.healthy_node_count_at(140), 0);
    r.cleanup_unhealthy_nodes_at(139);
    assert_eq!(r.healthy_node_count_at(139), 1);
    r.cleanup_unhealthy_nodes_at(140);
    assert_eq!(r.healthy_node_count_at(100), 0);
    r.update_config_version("n1", 7);
    r.update_heartbeat_at("ghost", NodeCounters::zero(), 150);
    assert_eq!(r.node_count(), 1);
    assert!(r.send_to_node("n1", "hello"));
    assert!(!r.send_to_node("n2", "hello"));
    r.broadcast("all");
    assert_eq!(texts(&mut rx), vec!["hello".to_string(), "all".to_string()]);
    assert_eq!(r.get_config_version(), 1);
    assert_eq!(r.advance_config_version(), 2);
    assert_eq!(r.get_config_version(), 2);
    r.unregister("n1");
    assert_eq!(r.node_count(), 0);
    assert!(!r.send_to_node("n1", "x"));
}

#[test]
fn coordinator_answers_agent_messages() {
    let mut r = NodeRegistry::new(30);
    let (tx, _rx) = unbounded_channel();
    let mut node: Option<String> = None;
    let hb = handle_agent_message_at(&mut r, &mut node, AgentMessage::Heartbeat { counters: NodeCounters::zero() }, &tx, "s", "realm", 10);
    assert!(hb.is_empty());
    assert_eq!(r.node_count(), 0);
    let register = AgentMessage::Register {
        node_id: "n1".to_string(),
        region: "eu-west".to_string(),
        public_ip: "9.9.9.9".to_string(),
        ports: ports(),
        capabilities: caps(true, false),
    };
    let replies = handle_agent_message_at(&mut r, &mut node, register, &tx, "s", "realm", 10);
    assert_eq!(node.as_deref(), Some("n1"));
    assert_eq!(replies.len(), 2);
    assert!(matches!(&replies[0], CoordinatorMessage::Registered { node_id, assigned_id: None } if node_id == "n1"));
    match &replies[1] {
        CoordinatorMessage::Config { version, config } => {
            assert_eq!(*version, 1);
            assert_eq!(config.realm, "realm");
            assert_eq!(config.auth_secret, "s");
            assert_eq!((config.total_quota, config.user_quota, config.max_bps), (0, 0, 0));
        }
        _ => panic!("expected a configuration"),
    }
    handle_agent_message_at(&mut r, &mut node, AgentMessage::Heartbeat { counters: NodeCounters::zero() }, &tx, "s", "realm", 20);
    assert_eq!(r.healthy_node_count_at(20), 1);
    handle_agent_message_at(&mut r, &mut node, AgentMessage::ConfigApplied { config_version: 4, success: false, error: Some("x".to_string()) }, &tx, "s", "realm", 20);
    assert_eq!(r.get_healthy_nodes_at(20)[0].config_version, 0);
    handle_agent_message_at(&mut r, &mut node, AgentMessage::ConfigApplied { config_version: 4, success: true, error: None }, &tx, "s", "realm", 20);
    assert_eq!(r.get_healthy_nodes_at(20)[0].config_version, 4);
    let again = handle_agent_message_at(&mut r, &mut node, AgentMessage::RequestConfig, &tx, "s2", "realm", 20);
    assert!(matches!(&again[0], CoordinatorMessage::Config { config, .. } if config.auth_secret == "s2"));
    end_agent_connection(&mut r, node);
    assert_eq!(r.node_count(), 0);
    assert!(matches!(invalid_message_reply("bad json"), CoordinatorMessage::Error { code, message } if code == "invalid_message" && message == "bad json"));
    assert!(matches!(config_message(3, "r", "k"), CoordinatorMessage::Config { version: 3, .. }));
}

#[test]
fn node_message_targets() {
    let mut r = NodeRegistry::new(30);
    assert!(r.node_channel("n1").is_none());
    assert!(r.node_channels().is_empty());
    let (tx, _rx) = unbounded_channel();
    let mut node: Option<String> = None;
    let register = AgentMessage::Register {
        node_id: "n1".to_string(),
        region: "eu-west".to_string(),
        public_ip: "9.9.9.9".to_string(),
        ports: ports(),
        capabilities: caps(true, false),
    };
    handle_agent_message_at(&mut r, &mut node, register, &tx, "s", "realm", 10);
    assert!(r.node_channel("n1").is_some());
    assert_eq!(r.node_channels().len(), 1);
}
