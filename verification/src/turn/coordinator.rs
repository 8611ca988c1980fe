//! What the coordinator does with each message on an agent's connection.
//!
//! The connection's loop reads a message, hands it here with the registry, and sends back the
//! replies given; when the connection ends, its node is forgotten.

use vstd::prelude::*;
use vstd::string::*;
use tokio::sync::mpsc::UnboundedSender;
use axum::extract::ws::Message;
use crate::clock::{MAX_TIMESTAMP, MIN_TIMESTAMP};
use crate::turn::models::{AgentMessage, CoordinatorMessage, TurnConfig};
use crate::turn::registry::{registered_node, reported, NodeRegistry};
use crate::turn::secrets::SecretEntry;

verus! {

/// `m` hands an agent the configuration `version` of the TURN servers in `realm` with the
/// shared `secret` and no quotas.
pub open spec fn is_config_message(m: CoordinatorMessage, version: u64, realm: Seq<char>, secret: Seq<char>) -> bool {
    m matches CoordinatorMessage::Config { version: v, config: c }
        && v == version && c.realm@ == realm && c.auth_secret@ == secret
        && c.total_quota == 0 && c.user_quota == 0 && c.max_bps == 0
}

/// The configuration message for `version`.
pub fn config_message(version: u64, realm: &str, secret: &str) -> (r: CoordinatorMessage)
    ensures
        is_config_message(r, version, realm@, secret@),
{
    CoordinatorMessage::Config {
        version,
        config: TurnConfig {
            realm: String::from_str(realm),
            auth_secret: String::from_str(secret),
            total_quota: 0,
            user_quota: 0,
            max_bps: 0,
        },
    }
}

/// The reply to a message that could not be read; `detail` says why.
pub fn invalid_message_reply(detail: &str) -> (r: CoordinatorMessage)
    ensures
        r matches CoordinatorMessage::Error { code, message } && code@ == "invalid_message"@ && message@ == detail@,
{
    CoordinatorMessage::Error { code: String::from_str("invalid_message"), message: String::from_str(detail) }
}

/// The message that tells the agents of a new secret.
pub fn secret_update_message(entry: &SecretEntry) -> (r: CoordinatorMessage)
    ensures
        r matches CoordinatorMessage::UpdateSecret { secret, effective_at, expires_at }
            && secret@ == entry.secret@ && effective_at == entry.created_at && expires_at == entry.expires_at,
{
    CoordinatorMessage::UpdateSecret {
        secret: entry.secret.clone(),
        effective_at: entry.created_at,
        expires_at: entry.expires_at,
    }
}

/// Handles one message of the agent on a connection at `now`. `node` is the node the
/// connection registered, if any; `sender` is the connection's outbound channel; `secret` and
/// `realm` make up the configuration. Gives the replies to send, in order.
///
/// A registration records the node and its channel and is answered with a confirmation and the
/// current configuration; a report or an applied configuration of the connection's node is
/// recorded (a failed one is not); a request for the configuration is answered with it.
pub fn handle_agent_message_at(
    registry: &mut NodeRegistry,
    node: &mut Option<String>,
    message: AgentMessage,
    sender: &UnboundedSender<Message>,
    secret: &str,
    realm: &str,
    now: i64,
) -> (r: Vec<CoordinatorMessage>)
    requires
        old(registry).wf(),
        MIN_TIMESTAMP <= now <= MAX_TIMESTAMP,
    ensures
        final(registry).wf(),
        final(registry).version() == old(registry).version(),
        final(registry).timeout() == old(registry).timeout(),
        match message {
            AgentMessage::Register { node_id, region, public_ip, ports, capabilities } => {
                &&& final(registry).nodes() == old(registry).nodes().insert(
                    node_id@,
                    registered_node(node_id, region, public_ip, ports, capabilities, now),
                )
                &&& final(registry).connected() == old(registry).connected().insert(node_id@)
                &&& *final(node) matches Some(id) && id@ == node_id@
                &&& r@.len() == 2
                &&& r@[0] matches CoordinatorMessage::Registered { node_id: n, assigned_id: None } && n@ == node_id@
                &&& is_config_message(r@[1], old(registry).version(), realm@, secret@)
            },
            AgentMessage::Heartbeat { counters } => {
                &&& final(registry).nodes() == match *old(node) {
                    Some(id) => if old(registry).nodes().contains_key(id@) {
                        old(registry).nodes().insert(id@, reported(old(registry).nodes()[id@], counters, now))
                    } else {
                        old(registry).nodes()
                    },
                    None => old(registry).nodes(),
                }
                &&& final(registry).connected() == old(registry).connected()
                &&& *final(node) == *old(node)
                &&& r@.len() == 0
            },
            AgentMessage::ConfigApplied { config_version, success, error } => {
                &&& final(registry).nodes() == match *old(node) {
                    Some(id) => if success && old(registry).nodes().contains_key(id@) {
                        old(registry).nodes().insert(id@, crate::turn::models::NodeState {
                            config_version,
                            ..old(registry).nodes()[id@]
                        })
                    } else {
                        old(registry).nodes()
                    },
                    None => old(registry).nodes(),
                }
                &&& final(registry).connected() == old(registry).connected()
                &&& *final(node) == *old(node)
                &&& r@.len() == 0
            },
            AgentMessage::RequestConfig => {
                &&& final(registry).nodes() == old(registry).nodes()
                &&& final(registry).connected() == old(registry).connected()
                &&& *final(node) == *old(node)
                &&& r@.len() == 1
                &&& is_config_message(r@[0], old(registry).version(), realm@, secret@)
            },
        },
{
    match message {
        AgentMessage::Register { node_id, region, public_ip, ports, capabilities } => {
            let registered = registry.register_at(node_id, region, public_ip, ports, capabilities, sender.clone(), now);
            *node = Some(registered.clone());
            let mut replies: Vec<CoordinatorMessage> = Vec::new();
            replies.push(CoordinatorMessage::Registered { node_id: registered, assigned_id: None });
            replies.push(config_message(registry.get_config_version(), realm, secret));
            replies
        },
        AgentMessage::Heartbeat { counters } => {
            if let Some(id) = node {
                registry.update_heartbeat_at(id.as_str(), counters, now);
            }
            Vec::new()
        },
        AgentMessage::ConfigApplied { config_version, success, error } => {
            if let Some(id) = node {
                if success {
                    registry.update_config_version(id.as_str(), config_version);
                }
            }
            Vec::new()
        },
        AgentMessage::RequestConfig => {
            let mut replies: Vec<CoordinatorMessage> = Vec::new();
            replies.push(config_message(registry.get_config_version(), realm, secret));
            replies
        },
    }
}

/// Forgets the node of a connection that ended, if it registered one.
pub fn end_agent_connection(registry: &mut NodeRegistry, node: Option<String>)
    requires
        old(registry).wf(),
    ensures
        final(registry).wf(),
        final(registry).nodes() == match node {
            Some(id) => old(registry).nodes().remove(id@),
            None => old(registry).nodes(),
        },
        final(registry).connected() == match node {
            Some(id) => old(registry).connected().remove(id@),
            None => old(registry).connected(),
        },
{
    if let Some(id) = node {
        registry.unregister(id.as_str());
    }
}

} // verus!
