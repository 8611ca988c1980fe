//! What the agent does on its connection to the coordinator.
//!
//! The connection's loop sends the registration, then reads the coordinator's messages one by
//! one and carries out the action each calls for; the outcome of applying a configuration is
//! reported back.

use vstd::prelude::*;
use vstd::string::*;
use crate::agent::config::AgentConfig;
use crate::turn::models::{AgentMessage, CoordinatorMessage, NodeCapabilities, NodeCommand, TurnConfig, TurnPorts};

verus! {

/// What the agent does with one message of the coordinator.
#[derive(Debug, Clone)]
pub enum AgentAction {
    /// Nothing beyond noting the message.
    Nothing,
    /// Write the configuration file for `config` of version `version`, reload the server, and
    /// report the outcome.
    ApplyConfig { version: u64, config: TurnConfig },
    /// Swap the secret in the configuration file and, if that worked, reload the server.
    UpdateSecret { secret: String },
    /// Reload the server.
    Reload,
    /// Close the connection.
    Stop,
}

/// The registration of the agent's node: its settings, and every transport with 1000 Mbps.
pub fn register_message(config: &AgentConfig) -> (r: AgentMessage)
    ensures
        r matches AgentMessage::Register { node_id, region, public_ip, ports, capabilities }
            && node_id@ == config.node_id@ && region@ == config.region@ && public_ip@ == config.public_ip@
            && ports.listening == config.turn_port && ports.tls == config.turn_tls_port
            && ports.min_relay == config.relay_min_port && ports.max_relay == config.relay_max_port
            && capabilities.supports_tcp && capabilities.supports_tls && capabilities.supports_dtls
            && capabilities.max_bandwidth_mbps == 1000,
{
    AgentMessage::Register {
        node_id: config.node_id.clone(),
        region: config.region.clone(),
        public_ip: config.public_ip.clone(),
        ports: TurnPorts {
            listening: config.turn_port,
            tls: config.turn_tls_port,
            min_relay: config.relay_min_port,
            max_relay: config.relay_max_port,
        },
        capabilities: NodeCapabilities {
            supports_tcp: true,
            supports_tls: true,
            supports_dtls: true,
            max_bandwidth_mbps: 1000,
        },
    }
}

/// The action a message of the coordinator calls for: a configuration is applied, a secret
/// swapped, a reload done; both shutdown commands end the connection; a confirmation or an
/// error is only noted.
pub fn next_action(message: CoordinatorMessage) -> (r: AgentAction)
    ensures
        match message {
            CoordinatorMessage::Registered { .. } => r is Nothing,
            CoordinatorMessage::Config { version, config } => r matches AgentAction::ApplyConfig { version: v, config: c }
                && v == version && c == config,
            CoordinatorMessage::UpdateSecret { secret, .. } => r matches AgentAction::UpdateSecret { secret: s }
                && s == secret,
            CoordinatorMessage::Command { command } => match command {
                NodeCommand::Reload => r is Reload,
                NodeCommand::Shutdown => r is Stop,
                NodeCommand::DrainAndShutdown => r is Stop,
            },
            CoordinatorMessage::Error { .. } => r is Nothing,
        },
{
    match message {
        CoordinatorMessage::Registered { .. } => AgentAction::Nothing,
        CoordinatorMessage::Config { version, config } => AgentAction::ApplyConfig { version, config },
        CoordinatorMessage::UpdateSecret { secret, .. } => AgentAction::UpdateSecret { secret },
        CoordinatorMessage::Command { command } => match command {
            NodeCommand::Reload => AgentAction::Reload,
            NodeCommand::Shutdown => AgentAction::Stop,
            NodeCommand::DrainAndShutdown => AgentAction::Stop,
        },
        CoordinatorMessage::Error { .. } => AgentAction::Nothing,
    }
}

/// The report of applying configuration `version`: a success, or a failure with its reason.
pub fn config_applied_report(version: u64, outcome: Result<(), String>) -> (r: AgentMessage)
    ensures
        r matches AgentMessage::ConfigApplied { config_version, success, error }
            && config_version == version
            && match outcome {
                Ok(()) => success && error is None,
                Err(e) => !success && error == Some(e),
            },
{
    match outcome {
        Ok(()) => AgentMessage::ConfigApplied { config_version: version, success: true, error: None },
        Err(e) => AgentMessage::ConfigApplied { config_version: version, success: false, error: Some(e) },
    }
}

} // verus!
