use chat_backend::agent::config::{parse_unsigned, AgentConfig, AgentEnv, ConfigError};
use chat_backend::agent::coturn::{replace_str, CoturnError, CoturnManager};
use chat_backend::agent::session::{config_applied_report, next_action, register_message, AgentAction};
use chat_backend::turn::models::{AgentMessage, CoordinatorMessage, NodeCommand, TurnConfig};

fn env() -> AgentEnv {
    AgentEnv {
        public_ip: Some("203.0.113.7".to_string()),
        coordinator_url: Some("wss://chat.test/internal/turn-coordinator".to_string()),
        coordinator_token: Some("tok".to_string()),
        node_id: None,
        region: None,
        turn_port: None,
        turn_tls_port: Some("+5350".to_string()),
        relay_min_port: Some("70000".to_string()),
        relay_max_port: Some("6x".to_string()),
        heartbeat_interval: Some("15".to_string()),
    }
}

fn turn_config() -> TurnConfig {
    TurnConfig {
        realm: "chat.test".to_string(),
        auth_secret: "S1".to_string(),
        total_quota: 100,
        user_quota: 10,
        max_bps: 1_000_000,
    }
}

#[test]
fn settings_with_defaults() {
    let c = AgentConfig::from_env_with(env(), "turn-abcdef12".to_string()).unwrap();
    assert_eq!(c.node_id, "turn-abcdef12");
    assert_eq!(c.region, "unknown");
    assert_eq!(c.public_ip, "203.0.113.7");
    assert_eq!(c.turn_port, 3478);
    assert_eq!(c.turn_tls_port, 5350);
    assert_eq!(c.relay_min_port, 49152);
    assert_eq!(c.relay_max_port, 65535);
    assert_eq!(c.heartbeat_interval, 15);
    let mut e = env();
    e.node_id = Some("edge-1".to_string());
    e.region = Some("cn-east".to_string());
    let c = AgentConfig::from_env_with(e, "unused".to_string()).unwrap();
    assert_eq!((c.node_id.as_str(), c.region.as_str()), ("edge-1", "cn-east"));
}

#[test]
fn generated_node_ids() {
    let c = AgentConfig::from_env(env()).unwrap();
    assert_eq!(c.node_id.len(), 13);
    assert!(c.node_id.starts_with("turn-"));
    assert!(c.node_id[5..].chars().all(|ch| ch.is_ascii_hexdigit()));
}

#[test]
fn required_settings() {
    let mut e = env();
    e.public_ip = None;
    assert!(matches!(AgentConfig::from_env_with(e, String::new()), Err(ConfigError::Missing(n)) if n == "PUBLIC_IP"));
    let mut e = env();
    e.public_ip = Some("你的公网IP".to_string());
    assert!(matches!(AgentConfig::from_env_with(e, String::new()), Err(ConfigError::Invalid(m)) if m == "PUBLIC_IP 未配置或使用了默认值"));
    let mut e = env();
    e.public_ip = Some(String::new());
    assert!(matches!(AgentConfig::from_env_with(e, String::new()), Err(ConfigError::Invalid(_))));
    let mut e = env();
    e.coordinator_url = None;
    assert!(matches!(AgentConfig::from_env_with(e, String::new()), Err(ConfigError::Missing(n)) if n == "COORDINATOR_URL"));
    let mut e = env();
    e.coordinator_url = Some("ws://example.com/x".to_string());
    assert!(matches!(AgentConfig::from_env_with(e, String::new()), Err(ConfigError::Invalid(m)) if m == "COORDINATOR_URL 未配置或使用了默认值"));
    let mut e = env();
    e.coordinator_token = None;
    assert!(matches!(AgentConfig::from_env_with(e, String::new()), Err(ConfigError::Missing(n)) if n == "COORDINATOR_TOKEN"));
    let mut e = env();
    e.coordinator_token = Some("your-agent-token-here".to_string());
    let err = AgentConfig::from_env_with(e, String::new()).unwrap_err();
    assert_eq!(err.message(), "配置值无效: COORDINATOR_TOKEN 未配置或使用了默认值");
    assert_eq!(ConfigError::Missing("X".to_string()).message(), "缺少必填配置: X");
}

#[test]
fn numbers_read_as_str_parse_reads_them() {
    for text in ["0", "7", "+7", "65535", "00012", "", "+", "-1", " 1", "1 ", "65536", "1e3", "٣"] {
        let expected = text.parse::<u16>().ok().map(u64::from);
        assert_eq!(parse_unsigned(text, 65535), expected, "{:?}", text);
    }
    for text in ["18446744073709551615", "18446744073709551616", "99999999999999999999999", "+0"] {
        assert_eq!(parse_unsigned(text, u64::MAX), text.parse::<u64>().ok(), "{:?}", text);
    }
    for n in [0u64, 9, 10, 12345, u64::MAX] {
        assert_eq!(parse_unsigned(&n.to_string(), u64::MAX), Some(n));
    }
}

#[test]
fn replacing_text() {
    assert_eq!(replace_str("a${X}b${X}", "${X}", "1"), "a1b1");
    assert_eq!(replace_str("aaaa", "aa", "b"), "bb");
    assert_eq!(replace_str("aaa", "aa", "b"), "ba");
    assert_eq!(replace_str("none here", "${X}", "1"), "none here");
    for (s, p, r) in [("xyxyx", "xyx", "-"), ("中文${A}中文", "${A}", "值"), ("", "a", "b")] {
        assert_eq!(replace_str(s, p, r), s.replace(p, r));
    }
}

#[test]
fn rendering_the_configuration() {
    let agent = AgentConfig::from_env_with(env(), "turn-1".to_string()).unwrap();
    let m = CoturnManager::new("/etc/turn.conf".to_string(), "/tpl".to_string());
    assert_eq!(m.config_path(), "/etc/turn.conf");
    assert_eq!(m.template_path(), "/tpl");
    let template = "# ${GENERATED_AT} v${CONFIG_VERSION}\nlistening-port=${TURN_PORT}\ntls-listening-port=${TURN_TLS_PORT}\nexternal-ip=${PUBLIC_IP}\nstatic-auth-secret=${AUTH_SECRET}\nrealm=${REALM}\nmin-port=${RELAY_MIN_PORT}\nmax-port=${RELAY_MAX_PORT}\ntotal-quota=${TOTAL_QUOTA}\nuser-quota=${USER_QUOTA}\nmax-bps=${MAX_BPS}\n";
    let out = m.render_config(template, &turn_config(), &agent, 7, "2024-01-01T00:00:00+00:00");
    assert_eq!(out, "# 2024-01-01T00:00:00+00:00 v7\nlistening-port=3478\ntls-listening-port=5350\nexternal-ip=203.0.113.7\nstatic-auth-secret=S1\nrealm=chat.test\nmin-port=49152\nmax-port=65535\ntotal-quota=100\nuser-quota=10\nmax-bps=1000000\n");
}

#[test]
fn swapping_the_secret() {
    let mut m = CoturnManager::new("c".to_string(), "t".to_string());
    assert_eq!(m.secret_update("static-auth-secret=${AUTH_SECRET}\n", "NEW"), "static-auth-secret=NEW\n");
    m.config_applied(&turn_config(), 3);
    assert_eq!(m.get_config_version(), 3);
    assert_eq!(m.secret_update("x\nstatic-auth-secret=S1\n", "S2"), "x\nstatic-auth-secret=S2\n");
    m.secret_applied("S2");
    assert_eq!(m.secret_update("static-auth-secret=S2", "S3"), "static-auth-secret=S3");
    assert_eq!(m.get_config_version(), 3);
    assert_eq!(CoturnError::TemplateRead("gone".to_string()).message(), "模板读取失败: gone");
    assert_eq!(CoturnError::ConfigWrite("full".to_string()).message(), "配置写入失败: full");
    assert_eq!(CoturnError::Io("eof".to_string()).message(), "IO 错误: eof");
}

#[test]
fn agent_decisions() {
    let c = AgentConfig::from_env_with(env(), "turn-1".to_string()).unwrap();
    match register_message(&c) {
        AgentMessage::Register { node_id, ports, capabilities, .. } => {
            assert_eq!(node_id, "turn-1");
            assert_eq!((ports.listening, ports.tls, ports.min_relay, ports.max_relay), (3478, 5350, 49152, 65535));
            assert!(capabilities.supports_tcp && capabilities.supports_tls && capabilities.supports_dtls);
            assert_eq!(capabilities.max_bandwidth_mbps, 1000);
        }
        _ => panic!("expected a registration"),
    }
    assert!(matches!(next_action(CoordinatorMessage::Registered { node_id: "n".to_string(), assigned_id: None }), AgentAction::Nothing));
    assert!(matches!(next_action(CoordinatorMessage::Config { version: 2, config: turn_config() }), AgentAction::ApplyConfig { version: 2, .. }));
    assert!(matches!(next_action(CoordinatorMessage::UpdateSecret { secret: "k".to_string(), effective_at: 0, expires_at: 1 }), AgentAction::UpdateSecret { secret } if secret == "k"));
    assert!(matches!(next_action(CoordinatorMessage::Command { command: NodeCommand::Reload }), AgentAction::Reload));
    assert!(matches!(next_action(CoordinatorMessage::Command { command: NodeCommand::Shutdown }), AgentAction::Stop));
    assert!(matches!(next_action(CoordinatorMessage::Command { command: NodeCommand::DrainAndShutdown }), AgentAction::Stop));
    assert!(matches!(next_action(CoordinatorMessage::Error { code: "c".to_string(), message: "m".to_string() }), AgentAction::Nothing));
    assert!(matches!(config_applied_report(5, Ok(())), AgentMessage::ConfigApplied { config_version: 5, success: true, error: None }));
    assert!(matches!(config_applied_report(5, Err("disk".to_string())), AgentMessage::ConfigApplied { config_version: 5, success: false, error: Some(e) } if e == "disk"));
}
