//! The TURN nodes known to the coordinator, and the channels to their agents.

use vstd::prelude::*;
use dashmap::DashMap;
use tokio::sync::mpsc::UnboundedSender;
use axum::extract::ws::Message;
use crate::channel::{deliveries_to, send_all_recorded, send_recorded, Delivery};
use crate::clock::{now_unix_seconds, MAX_TIMESTAMP, MIN_TIMESTAMP};
use crate::turn::models::{NodeCapabilities, NodeCounters, NodeState, NodeStatus, TurnPorts};

verus! {

/// The nodes of a node table, by id.
pub uninterp spec fn node_table(m: DashMap<String, NodeState>) -> Map<Seq<char>, NodeState>;

/// The channel of each node that has one in a channel table, by node id. A sender is known by
/// the channel it feeds: a clone of it stands for the same channel.
pub uninterp spec fn channel_table(m: DashMap<String, UnboundedSender<Message>>) -> Map<Seq<char>, UnboundedSender<Message>>;

/// `senders` holds the channels of the nodes `ids`, in order, each node of `table` once.
pub open spec fn lists_channels(
    senders: Seq<UnboundedSender<Message>>,
    ids: Seq<Seq<char>>,
    table: Map<Seq<char>, UnboundedSender<Message>>,
) -> bool {
    &&& ids.len() == senders.len()
    &&& ids.no_duplicates()
    &&& ids.to_set() == table.dom()
    &&& forall|i: int| 0 <= i < ids.len() ==> #[trigger] senders[i] == table[ids[i]]
}

/// An empty node table (wraps `DashMap::new`).
#[verifier::external_body]
fn nodes_new() -> (r: DashMap<String, NodeState>)
    ensures
        node_table(r).dom().is_empty(),
{
    DashMap::new()
}

/// A copy of a node (wraps `DashMap::get`, cloning the node).
#[verifier::external_body]
fn nodes_get(m: &DashMap<String, NodeState>, node_id: &str) -> (r: Option<NodeState>)
    ensures
        match r {
            Some(n) => node_table(*m).contains_key(node_id@) && n == node_table(*m)[node_id@],
            None => !node_table(*m).contains_key(node_id@),
        },
{
    m.get(node_id).map(|e| e.value().clone())
}

/// Stores a node (wraps `DashMap::insert`).
#[verifier::external_body]
fn nodes_insert(m: &mut DashMap<String, NodeState>, node_id: String, node: NodeState)
    ensures
        node_table(*final(m)) == node_table(*old(m)).insert(node_id@, node),
{
    m.insert(node_id, node);
}

/// Drops a node (wraps `DashMap::remove`).
#[verifier::external_body]
fn nodes_remove(m: &mut DashMap<String, NodeState>, node_id: &str)
    ensures
        node_table(*final(m)) == node_table(*old(m)).remove(node_id@),
{
    m.remove(node_id);
}

/// The number of nodes (wraps `DashMap::len`).
#[verifier::external_body]
fn nodes_len(m: &DashMap<String, NodeState>) -> (r: usize)
    ensures
        r == node_table(*m).dom().len(),
{
    m.len()
}

/// `v` lists the nodes of `t`, each once.
pub open spec fn lists_nodes(v: Seq<NodeState>, t: Map<Seq<char>, NodeState>) -> bool {
    &&& v.len() == t.dom().len()
    &&& forall|i: int| 0 <= i < v.len() ==> t.contains_key((#[trigger] v[i]).node_id@) && t[v[i].node_id@] == v[i]
    &&& forall|i: int, j: int| 0 <= i < j < v.len() ==> (#[trigger] v[i]).node_id@ != (#[trigger] v[j]).node_id@
}

/// `v` lists the nodes of `t` that are healthy at `now`, each once.
pub open spec fn lists_healthy(v: Seq<NodeState>, t: Map<Seq<char>, NodeState>, now: i64, timeout: u64) -> bool {
    &&& forall|i: int| 0 <= i < v.len() ==> t.contains_key((#[trigger] v[i]).node_id@)
            && t[v[i].node_id@] == v[i] && is_healthy(v[i], now, timeout)
    &&& forall|i: int, j: int| 0 <= i < j < v.len() ==> (#[trigger] v[i]).node_id@ != (#[trigger] v[j]).node_id@
    &&& forall|k: Seq<char>| #[trigger] t.contains_key(k) && is_healthy(t[k], now, timeout)
            ==> exists|i: int| 0 <= i < v.len() && (#[trigger] v[i]).node_id@ == k
}

/// A node table is finite and keyed by the nodes' own ids.
pub open spec fn keyed_by_node_id(t: Map<Seq<char>, NodeState>) -> bool {
    &&& t.dom().finite()
    &&& forall|k: Seq<char>| #[trigger] t.contains_key(k) ==> t[k].node_id@ == k
}

/// Copies of all the nodes, in no particular order (wraps `DashMap::iter`, cloning each
/// value). The table's keys are the nodes' own ids.
#[verifier::external_body]
fn nodes_list(m: &DashMap<String, NodeState>) -> (r: Vec<NodeState>)
    ensures
        keyed_by_node_id(node_table(*m)) ==> lists_nodes(r@, node_table(*m)),
{
    m.iter().map(|e| e.value().clone()).collect()
}

/// An empty channel table (wraps `DashMap::new`).
#[verifier::external_body]
fn channels_new() -> (r: DashMap<String, UnboundedSender<Message>>)
    ensures
        channel_table(r).dom().is_empty(),
{
    DashMap::new()
}

/// Stores the channel of a node (wraps `DashMap::insert`).
#[verifier::external_body]
fn channels_insert(m: &mut DashMap<String, UnboundedSender<Message>>, node_id: String, sender: UnboundedSender<Message>)
    ensures
        channel_table(*final(m)) == channel_table(*old(m)).insert(node_id@, sender),
{
    m.insert(node_id, sender);
}

/// Drops the channel of a node (wraps `DashMap::remove`).
#[verifier::external_body]
fn channels_remove(m: &mut DashMap<String, UnboundedSender<Message>>, node_id: &str)
    ensures
        channel_table(*final(m)) == channel_table(*old(m)).remove(node_id@),
{
    m.remove(node_id);
}

/// Another handle to a node's channel (wraps `DashMap::get`, cloning the sender; the clone
/// feeds the same channel).
#[verifier::external_body]
fn channels_get(m: &DashMap<String, UnboundedSender<Message>>, node_id: &str) -> (r: Option<UnboundedSender<Message>>)
    ensures
        match r {
            Some(s) => channel_table(*m).contains_key(node_id@) && s == channel_table(*m)[node_id@],
            None => !channel_table(*m).contains_key(node_id@),
        },
{
    m.get(node_id).map(|e| e.value().clone())
}

/// Handles to all the channels, one per node in no particular order (wraps `DashMap::iter`,
/// cloning each sender; a clone feeds the same channel).
#[verifier::external_body]
fn channels_all(m: &DashMap<String, UnboundedSender<Message>>) -> (r: Vec<UnboundedSender<Message>>)
    ensures
        exists|ids: Seq<Seq<char>>| #[trigger] lists_channels(r@, ids, channel_table(*m)),
{
    m.iter().map(|e| e.value().clone()).collect()
}

/// The largest heartbeat timeout: the number of seconds a `chrono` duration holds.
pub const MAX_HEARTBEAT_TIMEOUT: u64 = 9_223_372_036_854_775;

/// A node is healthy at `now` when it is active and reported within the timeout.
pub open spec fn is_healthy(n: NodeState, now: i64, timeout: u64) -> bool {
    n.status == NodeStatus::Active && now - n.last_heartbeat < timeout
}

/// A node is stale at `now` when its last report is at least the timeout old.
pub open spec fn is_stale(n: NodeState, now: i64, timeout: u64) -> bool {
    now - n.last_heartbeat >= timeout
}

/// The nodes after the stale ones are marked unhealthy.
pub open spec fn mark_stale(nodes: Map<Seq<char>, NodeState>, now: i64, timeout: u64) -> Map<Seq<char>, NodeState> {
    Map::new(
        |k: Seq<char>| nodes.contains_key(k),
        |k: Seq<char>| if is_stale(nodes[k], now, timeout) {
            NodeState { status: NodeStatus::Unhealthy, ..nodes[k] }
        } else {
            nodes[k]
        },
    )
}

/// A node after a report at `now` with the given counters: it is active again.
pub open spec fn reported(n: NodeState, counters: NodeCounters, now: i64) -> NodeState {
    NodeState { counters, last_heartbeat: now, status: NodeStatus::Active, ..n }
}

/// The state of a node that has just registered at `now`.
pub open spec fn registered_node(
    node_id: String,
    region: String,
    public_ip: String,
    ports: TurnPorts,
    capabilities: NodeCapabilities,
    now: i64,
) -> NodeState {
    NodeState {
        node_id,
        region,
        public_ip,
        ports,
        capabilities,
        counters: NodeCounters { active_sessions: 0, total_allocations: 0, uptime_seconds: 0 },
        status: NodeStatus::Registering,
        registered_at: now,
        last_heartbeat: now,
        config_version: 0,
    }
}

/// A copy of a node.
fn copy_node(n: &NodeState) -> (r: NodeState)
    ensures
        r == *n,
{
    NodeState {
        node_id: n.node_id.clone(),
        region: n.region.clone(),
        public_ip: n.public_ip.clone(),
        ports: n.ports,
        capabilities: n.capabilities,
        counters: n.counters,
        status: n.status,
        registered_at: n.registered_at,
        last_heartbeat: n.last_heartbeat,
        config_version: n.config_version,
    }
}

/// Whether a node is healthy at `now`.
fn healthy_at(n: &NodeState, now: i64, timeout: u64) -> (r: bool)
    requires
        MIN_TIMESTAMP <= now <= MAX_TIMESTAMP,
        MIN_TIMESTAMP <= n.last_heartbeat <= MAX_TIMESTAMP,
    ensures
        r == is_healthy(*n, now, timeout),
{
    let age: i64 = now - n.last_heartbeat;
    n.status == NodeStatus::Active && (age < 0 || (age as u64) < timeout)
}

/// Whether a node is stale at `now`.
fn stale_at(n: &NodeState, now: i64, timeout: u64) -> (r: bool)
    requires
        MIN_TIMESTAMP <= now <= MAX_TIMESTAMP,
        MIN_TIMESTAMP <= n.last_heartbeat <= MAX_TIMESTAMP,
    ensures
        r == is_stale(*n, now, timeout),
{
    let age: i64 = now - n.last_heartbeat;
    age >= 0 && (age as u64) >= timeout
}

/// The registered TURN nodes and the channels to their agents.
pub struct NodeRegistry {
    nodes: DashMap<String, NodeState>,
    senders: DashMap<String, UnboundedSender<Message>>,
    config_version: u64,
    heartbeat_timeout_secs: u64,
    /// Every text handed to an agent's channel so far, in order, with its outcome.
    sent: Ghost<Seq<Delivery>>,
}

/// The channels of the nodes `ids`, in order.
pub open spec fn channels_of_nodes(ids: Seq<Seq<char>>, table: Map<Seq<char>, UnboundedSender<Message>>)
    -> Seq<UnboundedSender<Message>>
{
    Seq::new(ids.len(), |i: int| table[ids[i]])
}

impl NodeRegistry {
    /// The registered nodes, by id.
    pub closed spec fn nodes(&self) -> Map<Seq<char>, NodeState> {
        node_table(self.nodes)
    }

    /// The nodes with a channel to their agent.
    pub closed spec fn connected(&self) -> Set<Seq<char>> {
        channel_table(self.senders).dom()
    }

    /// The channel to each connected node's agent.
    pub closed spec fn channels(&self) -> Map<Seq<char>, UnboundedSender<Message>> {
        channel_table(self.senders)
    }

    /// Every text handed to an agent's channel so far, in order, with whether the channel
    /// took it.
    pub closed spec fn deliveries(&self) -> Seq<Delivery> {
        self.sent@
    }

    /// The current configuration version.
    pub closed spec fn version(&self) -> u64 {
        self.config_version
    }

    /// Seconds without a report after which a node is no longer healthy.
    pub closed spec fn timeout(&self) -> u64 {
        self.heartbeat_timeout_secs
    }

    /// The node table is keyed by node id, the channel table finite, the timeout within what a
    /// duration holds, and every report time on the calendar.
    pub open spec fn wf(&self) -> bool {
        &&& keyed_by_node_id(self.nodes())
        &&& self.connected().finite()
        &&& self.timeout() <= MAX_HEARTBEAT_TIMEOUT
        &&& forall|k: Seq<char>| #[trigger] self.nodes().contains_key(k) ==>
                MIN_TIMESTAMP <= self.nodes()[k].last_heartbeat <= MAX_TIMESTAMP
    }

    pub fn new(heartbeat_timeout_secs: u64) -> (r: Self)
        requires
            heartbeat_timeout_secs <= MAX_HEARTBEAT_TIMEOUT,
        ensures
            r.wf(),
            r.nodes() == Map::<Seq<char>, NodeState>::empty(),
            r.connected() == Set::<Seq<char>>::empty(),
            r.version() == 1,
            r.timeout() == heartbeat_timeout_secs,
            r.deliveries() == Seq::<Delivery>::empty(),
    {
        let r = NodeRegistry {
            nodes: nodes_new(),
            senders: channels_new(),
            config_version: 1,
            heartbeat_timeout_secs,
            sent: Ghost(Seq::empty()),
        };
        proof {
            assert(r.nodes() =~= Map::<Seq<char>, NodeState>::empty());
            assert(r.connected() =~= Set::<Seq<char>>::empty());
        }
        r
    }

    /// Registers (or re-registers) a node at `now`, with no counters yet and the status
    /// `Registering`, and keeps the channel to its agent. Gives the node's id.
    pub fn register_at(
        &mut self,
        node_id: String,
        region: String,
        public_ip: String,
        ports: TurnPorts,
        capabilities: NodeCapabilities,
        sender: UnboundedSender<Message>,
        now: i64,
    ) -> (r: String)
        requires
            old(self).wf(),
            MIN_TIMESTAMP <= now <= MAX_TIMESTAMP,
        ensures
            final(self).wf(),
            r@ == node_id@,
            final(self).nodes() == old(self).nodes().insert(
                node_id@,
                registered_node(node_id, region, public_ip, ports, capabilities, now),
            ),
            final(self).connected() == old(self).connected().insert(node_id@),
            final(self).channels() == old(self).channels().insert(node_id@, sender),
            final(self).version() == old(self).version(),
            final(self).timeout() == old(self).timeout(),
    {
        let final_id = node_id.clone();
        let state = NodeState {
            node_id: node_id.clone(),
            region,
            public_ip,
            ports,
            capabilities,
            counters: NodeCounters::zero(),
            status: NodeStatus::Registering,
            registered_at: now,
            last_heartbeat: now,
            config_version: 0,
        };
        nodes_insert(&mut self.nodes, node_id.clone(), state);
        channels_insert(&mut self.senders, node_id, sender);
        final_id
    }

    /// Registers a node now (see `register_at`).
    pub fn register(
        &mut self,
        node_id: String,
        region: String,
        public_ip: String,
        ports: TurnPorts,
        capabilities: NodeCapabilities,
        sender: UnboundedSender<Message>,
    ) -> (r: String)
        requires
            old(self).wf(),
        ensures
            final(self).wf(),
            r@ == node_id@,
            exists|now: i64| MIN_TIMESTAMP <= now <= MAX_TIMESTAMP && final(self).nodes() == old(self).nodes().insert(
                node_id@,
                #[trigger] registered_node(node_id, region, public_ip, ports, capabilities, now),
            ),
            final(self).connected() == old(self).connected().insert(node_id@),
            final(self).channels() == old(self).channels().insert(node_id@, sender),
            final(self).version() == old(self).version(),
            final(self).timeout() == old(self).timeout(),
    {
        let now = now_unix_seconds();
        self.register_at(node_id, region, public_ip, ports, capabilities, sender, now)
    }

    /// Forgets a node and its channel.
    pub fn unregister(&mut self, node_id: &str)
        requires
            old(self).wf(),
        ensures
            final(self).wf(),
            final(self).nodes() == old(self).nodes().remove(node_id@),
            final(self).connected() == old(self).connected().remove(node_id@),
            final(self).channels() == old(self).channels().remove(node_id@),
            final(self).version() == old(self).version(),
            final(self).timeout() == old(self).timeout(),
    {
        nodes_remove(&mut self.nodes, node_id);
        channels_remove(&mut self.senders, node_id);
    }

    /// Records a report of a known node at `now`: its counters, the time, and the status
    /// `Active`. Unknown nodes are ignored.
    pub fn update_heartbeat_at(&mut self, node_id: &str, counters: NodeCounters, now: i64)
        requires
            old(self).wf(),
            MIN_TIMESTAMP <= now <= MAX_TIMESTAMP,
        ensures
            final(self).wf(),
            final(self).nodes() == if old(self).nodes().contains_key(node_id@) {
                old(self).nodes().insert(node_id@, reported(old(self).nodes()[node_id@], counters, now))
            } else {
                old(self).nodes()
            },
            final(self).connected() == old(self).connected(),
            final(self).version() == old(self).version(),
            final(self).timeout() == old(self).timeout(),
    {
        if let Some(node) = nodes_get(&self.nodes, node_id) {
            let updated = NodeState { counters, last_heartbeat: now, status: NodeStatus::Active, ..node };
            let key = updated.node_id.clone();
            nodes_insert(&mut self.nodes, key, updated);
        }
    }

    /// Records a report of a known node now (see `update_heartbeat_at`).
    pub fn update_heartbeat(&mut self, node_id: &str, counters: NodeCounters)
        requires
            old(self).wf(),
        ensures
            final(self).wf(),
            exists|now: i64| MIN_TIMESTAMP <= now <= MAX_TIMESTAMP && final(self).nodes() == if old(self).nodes().contains_key(node_id@) {
                old(self).nodes().insert(node_id@, #[trigger] reported(old(self).nodes()[node_id@], counters, now))
            } else {
                old(self).nodes()
            },
            final(self).connected() == old(self).connected(),
            final(self).version() == old(self).version(),
            final(self).timeout() == old(self).timeout(),
    {
        let now = now_unix_seconds();
        self.update_heartbeat_at(node_id, counters, now);
    }

    /// Records the configuration version a known node applied. Unknown nodes are ignored.
    pub fn update_config_version(&mut self, node_id: &str, version: u64)
        requires
            old(self).wf(),
        ensures
            final(self).wf(),
            final(self).nodes() == if old(self).nodes().contains_key(node_id@) {
                old(self).nodes().insert(node_id@, NodeState { config_version: version, ..old(self).nodes()[node_id@] })
            } else {
                old(self).nodes()
            },
            final(self).connected() == old(self).connected(),
            final(self).version() == old(self).version(),
            final(self).timeout() == old(self).timeout(),
    {
        if let Some(node) = nodes_get(&self.nodes, node_id) {
            let updated = NodeState { config_version: version, ..node };
            let key = updated.node_id.clone();
            nodes_insert(&mut self.nodes, key, updated);
        }
    }

    /// The healthy nodes at `now`, each once, in no particular order.
    pub fn get_healthy_nodes_at(&self, now: i64) -> (r: Vec<NodeState>)
        requires
            self.wf(),
            MIN_TIMESTAMP <= now <= MAX_TIMESTAMP,
        ensures
            lists_healthy(r@, self.nodes(), now, self.timeout()),
    {
        let all = nodes_list(&self.nodes);
        let ghost t = self.nodes();
        let mut r: Vec<NodeState> = Vec::new();
        let mut i: usize = 0;
        while i < all.len()
            invariant
                i <= all.len(),
                t == self.nodes(),
                self.wf(),
                MIN_TIMESTAMP <= now <= MAX_TIMESTAMP,
                lists_nodes(all@, t),
                forall|a: int| 0 <= a < r@.len() ==> exists|b: int| 0 <= b < i && #[trigger] r@[a] == all@[b],
                forall|a: int| 0 <= a < r@.len() ==> is_healthy(#[trigger] r@[a], now, self.timeout()),
                forall|a: int, c: int| 0 <= a < c < r@.len() ==> (#[trigger] r@[a]).node_id@ != (#[trigger] r@[c]).node_id@,
                forall|b: int| 0 <= b < i && is_healthy(#[trigger] all@[b], now, self.timeout())
                    ==> exists|a: int| 0 <= a < r@.len() && #[trigger] r@[a] == all@[b],
                forall|a: int| 0 <= a < r@.len() ==> forall|b: int| i <= b < all@.len() ==>
                    (#[trigger] r@[a]).node_id@ != (#[trigger] all@[b]).node_id@,
            decreases all.len() - i,
        {
            let n = &all[i];
            assert(t.contains_key(n.node_id@));
            let ghost before = r@;
            if healthy_at(n, now, self.heartbeat_timeout_secs) {
                r.push(copy_node(n));
                proof {
                    assert(r@[before.len() as int] == all@[i as int]);
                    assert forall|b: int| 0 <= b < i && is_healthy(#[trigger] all@[b], now, self.timeout())
                        implies exists|a: int| 0 <= a < r@.len() && #[trigger] r@[a] == all@[b] by {
                        let a = choose|a: int| 0 <= a < before.len() && #[trigger] before[a] == all@[b];
                        assert(r@[a] == before[a]);
                    }
                }
            }
            i = i + 1;
        }
        proof {
            assert forall|i: int| 0 <= i < r@.len() implies t.contains_key((#[trigger] r@[i]).node_id@)
                && t[r@[i].node_id@] == r@[i] && is_healthy(r@[i], now, self.timeout()) by {
                let b = choose|b: int| 0 <= b < all@.len() && #[trigger] r@[i] == all@[b];
            }
            assert forall|k: Seq<char>| #[trigger] t.contains_key(k) && is_healthy(t[k], now, self.timeout())
                implies exists|i: int| 0 <= i < r@.len() && (#[trigger] r@[i]).node_id@ == k by {
                lemma_listed(all@, t, k);
                let b = choose|b: int| 0 <= b < all@.len() && (#[trigger] all@[b]).node_id@ == k;
                assert(all@[b] == t[k]);
                let a = choose|a: int| 0 <= a < r@.len() && #[trigger] r@[a] == all@[b];
                assert(r@[a].node_id@ == k);
            }
        }
        r
    }

    /// The healthy nodes now (see `get_healthy_nodes_at`).
    pub fn get_healthy_nodes(&self) -> (r: Vec<NodeState>)
        requires
            self.wf(),
        ensures
            exists|now: i64| MIN_TIMESTAMP <= now <= MAX_TIMESTAMP && #[trigger] lists_healthy(r@, self.nodes(), now, self.timeout()),
    {
        let now = now_unix_seconds();
        self.get_healthy_nodes_at(now)
    }

    /// The number of registered nodes.
    pub fn node_count(&self) -> (r: usize)
        ensures
            r == self.nodes().dom().len(),
    {
        nodes_len(&self.nodes)
    }

    /// The number of healthy nodes at `now`.
    pub fn healthy_node_count_at(&self, now: i64) -> (r: usize)
        requires
            self.wf(),
            MIN_TIMESTAMP <= now <= MAX_TIMESTAMP,
        ensures
            r == self.nodes().dom().filter(|k: Seq<char>| is_healthy(self.nodes()[k], now, self.timeout())).len(),
    {
        let healthy = self.get_healthy_nodes_at(now);
        let ghost t = self.nodes();
        let ghost ids = healthy@.map_values(|n: NodeState| n.node_id@);
        let ghost s = t.dom().filter(|k: Seq<char>| is_healthy(t[k], now, self.timeout()));
        proof {
            assert(ids.no_duplicates()) by {
                assert forall|i: int, j: int| 0 <= i < ids.len() && 0 <= j < ids.len() && i != j implies ids[i] != ids[j] by {
                    if i < j {
                        assert(healthy@[i].node_id@ != healthy@[j].node_id@);
                    } else {
                        assert(healthy@[j].node_id@ != healthy@[i].node_id@);
                    }
                }
            }
            assert(ids.to_set() =~= s) by {
                assert forall|k: Seq<char>| ids.to_set().contains(k) implies s.contains(k) by {
                    let i = choose|i: int| 0 <= i < ids.len() && ids[i] == k;
                    assert(healthy@[i].node_id@ == k);
                }
                assert forall|k: Seq<char>| s.contains(k) implies ids.to_set().contains(k) by {
                    assert(t.contains_key(k) && is_healthy(t[k], now, self.timeout()));
                    let i = choose|i: int| 0 <= i < healthy@.len() && (#[trigger] healthy@[i]).node_id@ == k;
                    assert(ids[i] == k);
                }
            }
            ids.unique_seq_to_set();
        }
        healthy.len()
    }

    /// The channel to a node's agent, if it has one: the target of a message to that node.
    pub fn node_channel(&self, node_id: &str) -> (r: Option<UnboundedSender<Message>>)
        ensures
            match r {
                Some(s) => self.connected().contains(node_id@) && s == self.channels()[node_id@],
                None => !self.connected().contains(node_id@),
            },
    {
        channels_get(&self.senders, node_id)
    }

    /// Sends a text message to a node's agent: the text is handed to the node's channel when it
    /// has one, and nothing is sent otherwise. True when the channel took it.
    pub fn send_to_node(&mut self, node_id: &str, text: &str) -> (r: bool)
        ensures
            final(self).nodes() == old(self).nodes(),
            final(self).channels() == old(self).channels(),
            final(self).version() == old(self).version(),
            final(self).timeout() == old(self).timeout(),
            r ==> old(self).connected().contains(node_id@),
            old(self).connected().contains(node_id@) ==> final(self).deliveries()
                == old(self).deliveries().push((old(self).channels()[node_id@], text@, r)),
            !old(self).connected().contains(node_id@) ==> final(self).deliveries() == old(self).deliveries(),
    {
        match self.node_channel(node_id) {
            Some(sender) => send_recorded(&mut self.sent, &sender, text),
            None => false,
        }
    }

    /// The channels to all connected agents, one per connected node: the targets of a message
    /// to every node.
    pub fn node_channels(&self) -> (r: Vec<UnboundedSender<Message>>)
        requires
            self.wf(),
        ensures
            r@.len() == self.connected().len(),
            exists|ids: Seq<Seq<char>>| #[trigger] lists_channels(r@, ids, self.channels()),
    {
        let r = channels_all(&self.senders);
        proof {
            let ids = choose|ids: Seq<Seq<char>>| #[trigger] lists_channels(r@, ids, self.channels());
            ids.unique_seq_to_set();
        }
        r
    }

    /// Sends a text message to every node's agent: the text is handed to each connected node's
    /// channel once, in some order, and nothing else is sent.
    pub fn broadcast(&mut self, text: &str)
        requires
            old(self).wf(),
        ensures
            final(self).wf(),
            final(self).nodes() == old(self).nodes(),
            final(self).channels() == old(self).channels(),
            final(self).version() == old(self).version(),
            final(self).timeout() == old(self).timeout(),
            exists|ids: Seq<Seq<char>>, outcomes: Seq<bool>|
                ids.no_duplicates() && ids.to_set() == old(self).connected() && outcomes.len() == ids.len()
                && final(self).deliveries() == old(self).deliveries()
                    + #[trigger] deliveries_to(channels_of_nodes(ids, old(self).channels()), text@, outcomes),
    {
        let all = self.node_channels();
        let outcomes = send_all_recorded(&mut self.sent, &all, text);
        proof {
            let ids = choose|ids: Seq<Seq<char>>| #[trigger] lists_channels(all@, ids, old(self).channels());
            assert(channels_of_nodes(ids, old(self).channels()) =~= all@);
        }
    }

    /// Moves to the next configuration version and gives it.
    pub fn advance_config_version(&mut self) -> (r: u64)
        requires
            old(self).version() < u64::MAX,
        ensures
            r == old(self).version() + 1,
            final(self).version() == r,
            final(self).nodes() == old(self).nodes(),
            final(self).connected() == old(self).connected(),
            final(self).timeout() == old(self).timeout(),
    {
        self.config_version = self.config_version + 1;
        self.config_version
    }

    /// The current configuration version.
    pub fn get_config_version(&self) -> (r: u64)
        ensures
            r == self.version(),
    {
        self.config_version
    }

    /// Marks unhealthy every node whose last report is at least the timeout old at `now`.
    pub fn cleanup_unhealthy_nodes_at(&mut self, now: i64)
        requires
            old(self).wf(),
            MIN_TIMESTAMP <= now <= MAX_TIMESTAMP,
        ensures
            final(self).wf(),
            final(self).nodes() == mark_stale(old(self).nodes(), now, old(self).timeout()),
            final(self).connected() == old(self).connected(),
            final(self).version() == old(self).version(),
            final(self).timeout() == old(self).timeout(),
    {
        let ghost t0 = self.nodes();
        let all = nodes_list(&self.nodes);
        let mut i: usize = 0;
        while i < all.len()
            invariant
                i <= all.len(),
                lists_nodes(all@, t0),
                self.wf(),
                MIN_TIMESTAMP <= now <= MAX_TIMESTAMP,
                keyed_by_node_id(t0),
                forall|k: Seq<char>| #[trigger] t0.contains_key(k) ==> MIN_TIMESTAMP <= t0[k].last_heartbeat <= MAX_TIMESTAMP,
                self.nodes().dom() == t0.dom(),
                self.timeout() == old(self).timeout(),
                self.connected() == old(self).connected(),
                self.version() == old(self).version(),
                t0 == old(self).nodes(),
                forall|b: int| 0 <= b < i ==> #[trigger] self.nodes()[all@[b].node_id@]
                    == mark_stale(t0, now, self.timeout())[all@[b].node_id@],
                forall|b: int| i <= b < all@.len() ==> #[trigger] self.nodes()[all@[b].node_id@] == all@[b],
            decreases all.len() - i,
        {
            let n = &all[i];
            if stale_at(n, now, self.heartbeat_timeout_secs) {
                let updated = NodeState { status: NodeStatus::Unhealthy, ..copy_node(n) };
                let key = n.node_id.clone();
                nodes_insert(&mut self.nodes, key, updated);
                proof {
                    assert(self.nodes().dom() =~= t0.dom());
                    assert forall|b: int| 0 <= b < all@.len() && b != i implies all@[b].node_id@ != all@[i as int].node_id@ by {
                        if b < i { assert(all@[b].node_id@ != all@[i as int].node_id@); }
                        else { assert(all@[i as int].node_id@ != all@[b].node_id@); }
                    }
                }
            }
            i = i + 1;
        }
        proof {
            assert forall|k: Seq<char>| #[trigger] t0.contains_key(k) implies self.nodes()[k] == mark_stale(t0, now, self.timeout())[k] by {
                lemma_listed(all@, t0, k);
                let b = choose|b: int| 0 <= b < all@.len() && (#[trigger] all@[b]).node_id@ == k;
            }
            assert(self.nodes() =~= mark_stale(t0, now, self.timeout()));
        }
    }

    /// Marks unhealthy the nodes whose last report is at least the timeout old now (see
    /// `cleanup_unhealthy_nodes_at`).
    pub fn cleanup_unhealthy_nodes(&mut self)
        requires
            old(self).wf(),
        ensures
            final(self).wf(),
            exists|now: i64| MIN_TIMESTAMP <= now <= MAX_TIMESTAMP
                && final(self).nodes() == #[trigger] mark_stale(old(self).nodes(), now, old(self).timeout()),
            final(self).connected() == old(self).connected(),
            final(self).version() == old(self).version(),
    {
        let now = now_unix_seconds();
        self.cleanup_unhealthy_nodes_at(now);
    }
}

/// Every node of a table that a list lists is in the list.
proof fn lemma_listed(v: Seq<NodeState>, t: Map<Seq<char>, NodeState>, k: Seq<char>)
    requires
        lists_nodes(v, t),
        keyed_by_node_id(t),
        t.contains_key(k),
    ensures
        exists|b: int| 0 <= b < v.len() && (#[trigger] v[b]).node_id@ == k,
{
    let ids = v.map_values(|n: NodeState| n.node_id@);
    assert forall|i: int| 0 <= i < ids.len() implies t.dom().contains(#[trigger] ids[i]) by {}
    if !(exists|b: int| 0 <= b < v.len() && (#[trigger] v[b]).node_id@ == k) {
        assert(ids.no_duplicates()) by {
            assert forall|i: int, j: int| 0 <= i < ids.len() && 0 <= j < ids.len() && i != j implies ids[i] != ids[j] by {
                if i < j {
                    assert(v[i].node_id@ != v[j].node_id@);
                } else {
                    assert(v[j].node_id@ != v[i].node_id@);
                }
            }
        }
        ids.unique_seq_to_set();
        assert(ids.to_set().subset_of(t.dom().remove(k))) by {
            assert forall|x: Seq<char>| ids.to_set().contains(x) implies t.dom().remove(k).contains(x) by {
                let i = choose|i: int| 0 <= i < ids.len() && ids[i] == x;
                assert(v[i].node_id@ == x);
            }
        }
        vstd::set_lib::lemma_len_subset(ids.to_set(), t.dom().remove(k));
    }
}


/// A node is healthy from a report until the timeout has passed since it.
pub proof fn law_healthy_after_report(n: NodeState, counters: NodeCounters, reported_at: i64, now: i64, timeout: u64)
    ensures
        is_healthy(reported(n, counters, reported_at), now, timeout) <==> now - reported_at < timeout,
{
}

/// Marking the stale nodes unhealthy changes no node's health at that time: the healthy nodes
/// stay as they are, the others stay unhealthy.
pub proof fn law_cleanup_keeps_health(nodes: Map<Seq<char>, NodeState>, now: i64, timeout: u64, k: Seq<char>)
    requires
        nodes.contains_key(k),
    ensures
        mark_stale(nodes, now, timeout).contains_key(k),
        is_healthy(mark_stale(nodes, now, timeout)[k], now, timeout) == is_healthy(nodes[k], now, timeout),
        is_healthy(nodes[k], now, timeout) ==> mark_stale(nodes, now, timeout)[k] == nodes[k],
{
}

} // verus!
