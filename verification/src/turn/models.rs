//! TURN nodes, and the messages between the coordinator and the agents that run them.

use vstd::prelude::*;
use vstd::string::*;
use crate::text::{concat2, dec, strings_view, u64_to_string};

verus! {

/// The ports a TURN node listens and relays on.
#[derive(Debug, Clone, Copy)]
pub struct TurnPorts {
    pub listening: u16,
    pub tls: u16,
    pub min_relay: u16,
    pub max_relay: u16,
}

/// What a TURN node supports.
#[derive(Debug, Clone, Copy)]
pub struct NodeCapabilities {
    pub supports_tcp: bool,
    pub supports_tls: bool,
    pub supports_dtls: bool,
    pub max_bandwidth_mbps: u32,
}

/// The whole-number counters of a node's report. The load figures that come with them (CPU,
/// memory and bandwidth use) are fractional and are kept beside the registry.
#[derive(Debug, Clone, Copy)]
pub struct NodeCounters {
    pub active_sessions: u32,
    pub total_allocations: u64,
    pub uptime_seconds: u64,
}

impl NodeCounters {
    /// All counters at zero.
    pub fn zero() -> (r: NodeCounters)
        ensures
            r.active_sessions == 0 && r.total_allocations == 0 && r.uptime_seconds == 0,
    {
        NodeCounters { active_sessions: 0, total_allocations: 0, uptime_seconds: 0 }
    }
}

/// The life cycle of a node.
#[derive(Debug, Clone, Copy, PartialEq, Eq, Structural)]
pub enum NodeStatus {
    Registering,
    Active,
    Unhealthy,
    Draining,
    Offline,
}

/// What the coordinator knows of a node. Times are seconds since the Unix epoch.
#[derive(Debug, Clone)]
pub struct NodeState {
    pub node_id: String,
    pub region: String,
    pub public_ip: String,
    pub ports: TurnPorts,
    pub capabilities: NodeCapabilities,
    pub counters: NodeCounters,
    pub status: NodeStatus,
    pub registered_at: i64,
    pub last_heartbeat: i64,
    pub config_version: u64,
}

/// The TURN URLs of a node at `ip`: UDP always, TCP and TLS when the node supports them.
pub open spec fn turn_urls(ip: Seq<char>, ports: TurnPorts, caps: NodeCapabilities) -> Seq<Seq<char>> {
    let udp = "turn:"@ + ip + ":"@ + dec(ports.listening as nat);
    let with_tcp = if caps.supports_tcp {
        seq![udp, udp + "?transport=tcp"@]
    } else {
        seq![udp]
    };
    if caps.supports_tls {
        with_tcp.push("turns:"@ + ip + ":"@ + dec(ports.tls as nat))
    } else {
        with_tcp
    }
}

impl NodeState {
    /// The node's TURN URLs.
    pub fn build_turn_urls(&self) -> (r: Vec<String>)
        ensures
            strings_view(r@) == turn_urls(self.public_ip@, self.ports, self.capabilities),
    {
        let prefix = concat2("turn:", self.public_ip.as_str());
        let with_colon = concat2(prefix.as_str(), ":");
        let port = u64_to_string(self.ports.listening as u64);
        let udp = concat2(with_colon.as_str(), port.as_str());
        let mut urls: Vec<String> = Vec::new();
        urls.push(udp.clone());
        if self.capabilities.supports_tcp {
            urls.push(concat2(udp.as_str(), "?transport=tcp"));
        }
        if self.capabilities.supports_tls {
            let tls_prefix = concat2("turns:", self.public_ip.as_str());
            let tls_colon = concat2(tls_prefix.as_str(), ":");
            let tls_port = u64_to_string(self.ports.tls as u64);
            urls.push(concat2(tls_colon.as_str(), tls_port.as_str()));
        }
        proof {
            assert(strings_view(urls@) =~= turn_urls(self.public_ip@, self.ports, self.capabilities));
        }
        urls
    }
}

/// What a TURN server is configured with.
#[derive(Debug, Clone)]
pub struct TurnConfig {
    pub realm: String,
    pub auth_secret: String,
    pub total_quota: u32,
    pub user_quota: u32,
    pub max_bps: u64,
}

/// A control command for a node.
#[derive(Debug, Clone, Copy, PartialEq, Eq, Structural)]
pub enum NodeCommand {
    Reload,
    Shutdown,
    DrainAndShutdown,
}

/// A message from an agent to the coordinator.
#[derive(Debug, Clone)]
pub enum AgentMessage {
    Register {
        node_id: String,
        region: String,
        public_ip: String,
        ports: TurnPorts,
        capabilities: NodeCapabilities,
    },
    Heartbeat { counters: NodeCounters },
    ConfigApplied { config_version: u64, success: bool, error: Option<String> },
    RequestConfig,
}

/// A message from the coordinator to an agent. Times are seconds since the Unix epoch.
#[derive(Debug, Clone)]
pub enum CoordinatorMessage {
    Registered { node_id: String, assigned_id: Option<String> },
    Config { version: u64, config: TurnConfig },
    UpdateSecret { secret: String, effective_at: i64, expires_at: i64 },
    Command { command: NodeCommand },
    Error { code: String, message: String },
}

/// One ICE server handed to a client.
#[derive(Debug, Clone)]
pub struct IceServer {
    pub urls: Vec<String>,
    pub username: Option<String>,
    pub credential: Option<String>,
    pub credential_type: Option<String>,
}

/// The ICE servers handed to a client, and when their credentials expire (seconds since the
/// Unix epoch).
#[derive(Debug, Clone)]
pub struct IceServersResponse {
    pub ice_servers: Vec<IceServer>,
    pub expires_at: i64,
}

} // verus!
