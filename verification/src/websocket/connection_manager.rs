//! Open websocket connections, per user and device.

use vstd::prelude::*;
use vstd::string::*;
use dashmap::DashMap;
use tokio::sync::mpsc::UnboundedSender;
use axum::extract::ws::Message;
use crate::channel::{deliveries_to, send_all_recorded, send_recorded, Delivery};
use crate::text::{str_eq, strings_view};

verus! {

/// One open connection of a user: the device and the channel to its socket.
#[derive(Debug)]
pub struct ConnectionInfo {
    pub device_id: String,
    pub sender: UnboundedSender<Message>,
}

/// The device ids of a list of connections, in order.
pub open spec fn devices_of(v: Seq<ConnectionInfo>) -> Seq<Seq<char>> {
    v.map_values(|c: ConnectionInfo| c.device_id@)
}

/// The devices connected for each user, in connection order, as the table holds them.
pub uninterp spec fn connection_table(m: DashMap<String, Vec<ConnectionInfo>>) -> Map<Seq<char>, Seq<Seq<char>>>;

/// The channels of each user's connections, in the same order as their devices. A sender is
/// known by the channel it feeds: a clone of it stands for the same channel.
pub uninterp spec fn connection_channels(m: DashMap<String, Vec<ConnectionInfo>>) -> Map<Seq<char>, Seq<UnboundedSender<Message>>>;

/// The channels of a list of connections, in order.
pub open spec fn senders_of(v: Seq<ConnectionInfo>) -> Seq<UnboundedSender<Message>> {
    v.map_values(|c: ConnectionInfo| c.sender)
}

/// An empty connection table (wraps `DashMap::new`).
#[verifier::external_body]
fn connection_table_new() -> (r: DashMap<String, Vec<ConnectionInfo>>)
    ensures
        connection_table(r).dom().is_empty(),
        connection_channels(r).dom().is_empty(),
{
    DashMap::new()
}

/// A copy of a user's connections (wraps `DashMap::get`, cloning the entry's connections; a
/// cloned sender feeds the same channel).
#[verifier::external_body]
fn connection_table_get(m: &DashMap<String, Vec<ConnectionInfo>>, user_id: &str) -> (r: Option<Vec<ConnectionInfo>>)
    ensures
        match r {
            Some(v) => connection_table(*m).contains_key(user_id@) && devices_of(v@) == connection_table(*m)[user_id@]
                && connection_channels(*m).contains_key(user_id@) && senders_of(v@) == connection_channels(*m)[user_id@],
            None => !connection_table(*m).contains_key(user_id@) && !connection_channels(*m).contains_key(user_id@),
        },
{
    m.get(user_id).map(|e| e.value().iter().map(|c| ConnectionInfo { device_id: c.device_id.clone(), sender: c.sender.clone() }).collect())
}

/// Stores a user's connections (wraps `DashMap::insert`).
#[verifier::external_body]
fn connection_table_insert(m: &mut DashMap<String, Vec<ConnectionInfo>>, user_id: String, v: Vec<ConnectionInfo>)
    ensures
        connection_table(*final(m)) == connection_table(*old(m)).insert(user_id@, devices_of(v@)),
        connection_channels(*final(m)) == connection_channels(*old(m)).insert(user_id@, senders_of(v@)),
{
    m.insert(user_id, v);
}

/// Drops a user's entry (wraps `DashMap::remove`).
#[verifier::external_body]
fn connection_table_remove(m: &mut DashMap<String, Vec<ConnectionInfo>>, user_id: &str)
    ensures
        connection_table(*final(m)) == connection_table(*old(m)).remove(user_id@),
        connection_channels(*final(m)) == connection_channels(*old(m)).remove(user_id@),
{
    m.remove(user_id);
}

/// The users that have an entry, each once, in no particular order (wraps `DashMap::iter`,
/// taking each key).
#[verifier::external_body]
fn connection_table_keys(m: &DashMap<String, Vec<ConnectionInfo>>) -> (r: Vec<String>)
    ensures
        strings_view(r@).to_set() == connection_table(*m).dom(),
        strings_view(r@).no_duplicates(),
{
    m.iter().map(|e| e.key().clone()).collect()
}

/// All open websocket connections, by user; a user may be connected from several devices.
pub struct ConnectionManager {
    connections: DashMap<String, Vec<ConnectionInfo>>,
    online_users: usize,
    total_connections: usize,
    /// Every text handed to a connection's channel so far, in order, with its outcome.
    sent: Ghost<Seq<Delivery>>,
}

/// `devices` without `d`, the others kept in order.
pub open spec fn without_device(devices: Seq<Seq<char>>, d: Seq<char>) -> Seq<Seq<char>>
    decreases devices.len(),
{
    if devices.len() == 0 {
        devices
    } else if devices.last() != d {
        without_device(devices.drop_last(), d).push(devices.last())
    } else {
        without_device(devices.drop_last(), d)
    }
}

pub proof fn lemma_without_device(devices: Seq<Seq<char>>, d: Seq<char>)
    ensures
        without_device(devices, d).len() <= devices.len(),
        !without_device(devices, d).contains(d),
        forall|x: Seq<char>| without_device(devices, d).contains(x) ==> devices.contains(x),
        forall|x: Seq<char>| devices.contains(x) && x != d ==> without_device(devices, d).contains(x),
        devices.no_duplicates() ==> without_device(devices, d).no_duplicates(),
        devices.no_duplicates() && devices.contains(d) ==> without_device(devices, d).len() == devices.len() - 1,
        !devices.contains(d) ==> without_device(devices, d) == devices,
    decreases devices.len(),
{
    if devices.len() > 0 {
        let init = devices.drop_last();
        lemma_without_device(init, d);
        assert(devices == init.push(devices.last()));
        assert forall|x: Seq<char>| init.contains(x) implies devices.contains(x) by {
            let i = choose|i: int| 0 <= i < init.len() && init[i] == x;
            assert(devices[i] == x);
        }
        assert forall|x: Seq<char>| devices.contains(x) && x != d && x != devices.last() implies init.contains(x) by {
            let i = choose|i: int| 0 <= i < devices.len() && devices[i] == x;
            assert(init[i] == x);
        }
        if devices.no_duplicates() {
            assert(init.no_duplicates());
            assert(!init.contains(devices.last()));
            if devices.contains(d) && devices.last() != d {
                let i = choose|i: int| 0 <= i < devices.len() && devices[i] == d;
                assert(init[i] == d);
            }
        }
        if !devices.contains(d) {
            assert(!init.contains(d));
        }
        if devices.last() != d {
            let w = without_device(init, d);
            assert(w.push(devices.last())[w.len() as int] == devices.last());
            assert(w.push(devices.last()).contains(devices.last()));
            assert forall|x: Seq<char>| w.push(devices.last()).contains(x) implies devices.contains(x) by {
                let i = choose|i: int| 0 <= i < w.len() + 1 && w.push(devices.last())[i] == x;
                if i < w.len() {
                    assert(w.contains(x));
                }
            }
            assert forall|x: Seq<char>| devices.contains(x) && x != d implies w.push(devices.last()).contains(x) by {
                if x != devices.last() {
                    let i = choose|i: int| 0 <= i < w.len() && w[i] == x;
                    assert(w.push(devices.last())[i] == x);
                } else {
                    assert(w.push(devices.last())[w.len() as int] == x);
                }
            }
            if !w.push(devices.last()).no_duplicates() && devices.no_duplicates() {
                assert forall|i: int, j: int| 0 <= i < j < w.len() + 1 implies w.push(devices.last())[i] != w.push(devices.last())[j] by {
                    if j == w.len() {
                        if w[i] == devices.last() {
                            assert(w.contains(devices.last()));
                        }
                    }
                }
            }
            assert(!w.push(devices.last()).contains(d)) by {
                if w.push(devices.last()).contains(d) {
                    let i = choose|i: int| 0 <= i < w.len() + 1 && w.push(devices.last())[i] == d;
                    if i < w.len() {
                        assert(w.contains(d));
                    }
                }
            }
        }
    }
}

/// The channels of `senders` whose devices (listed alongside in `devices`) are not `d`, in
/// order: the channels that stay when the connection of `d` goes.
pub open spec fn kept_senders(devices: Seq<Seq<char>>, senders: Seq<UnboundedSender<Message>>, d: Seq<char>)
    -> Seq<UnboundedSender<Message>>
    decreases devices.len(),
{
    if devices.len() == 0 || senders.len() == 0 {
        Seq::empty()
    } else if devices.last() != d {
        kept_senders(devices.drop_last(), senders.drop_last(), d).push(senders.last())
    } else {
        kept_senders(devices.drop_last(), senders.drop_last(), d)
    }
}

/// As many channels are kept as devices.
pub proof fn lemma_kept_senders_len(devices: Seq<Seq<char>>, senders: Seq<UnboundedSender<Message>>, d: Seq<char>)
    requires
        devices.len() == senders.len(),
    ensures
        kept_senders(devices, senders, d).len() == without_device(devices, d).len(),
    decreases devices.len(),
{
    if devices.len() > 0 {
        lemma_kept_senders_len(devices.drop_last(), senders.drop_last(), d);
    }
}

/// The devices of `user` in a table of connected users, none if it is not listed.
pub open spec fn devices_in(users: Map<Seq<char>, Seq<Seq<char>>>, user: Seq<char>) -> Seq<Seq<char>> {
    if users.contains_key(user) { users[user] } else { Seq::empty() }
}

/// The connected users after `device` of `user` connects: it is listed last among the user's
/// devices, an older connection of it dropped.
pub open spec fn after_connect(users: Map<Seq<char>, Seq<Seq<char>>>, user: Seq<char>, device: Seq<char>)
    -> Map<Seq<char>, Seq<Seq<char>>> {
    users.insert(user, without_device(devices_in(users, user), device).push(device))
}

/// The connected users after `device` of `user` disconnects: a user left with no device is no
/// longer listed.
pub open spec fn after_disconnect(users: Map<Seq<char>, Seq<Seq<char>>>, user: Seq<char>, device: Seq<char>)
    -> Map<Seq<char>, Seq<Seq<char>>> {
    if !users.contains_key(user) {
        users
    } else if without_device(users[user], device).len() == 0 {
        users.remove(user)
    } else {
        users.insert(user, without_device(users[user], device))
    }
}

/// A device that was not connected, once connected and disconnected again, leaves the
/// connected users and their devices as they were.
pub proof fn law_connect_then_disconnect(users: Map<Seq<char>, Seq<Seq<char>>>, user: Seq<char>, device: Seq<char>)
    requires
        forall|u: Seq<char>| #[trigger] users.contains_key(u) ==> users[u].len() > 0,
        !devices_in(users, user).contains(device),
    ensures
        after_disconnect(after_connect(users, user, device), user, device) == users,
{
    let devs = devices_in(users, user);
    lemma_without_device(devs, device);
    let connected = after_connect(users, user, device);
    assert(devs.push(device).drop_last() =~= devs);
    assert(without_device(devs.push(device), device) == without_device(devs, device));
    if users.contains_key(user) {
        assert(connected.insert(user, devs) =~= users);
    } else {
        assert(connected.remove(user) =~= users);
    }
}

/// Incrementing a wrapping counter that counts `l` modulo the `usize` range counts `l + 1`.
pub proof fn lemma_wrapping_inc(c: usize, l: nat)
    requires
        c as nat == l % (usize::MAX as nat + 1),
    ensures
        vstd::wrapping::usize_specs::wrapping_add(c, 1) as nat == (l + 1) % (usize::MAX as nat + 1),
{
    let m = (usize::MAX as nat + 1) as int;
    vstd::arithmetic::div_mod::lemma_fundamental_div_mod(l as int, m);
    let q = (l as int) / m;
    assert(l as int == q * m + c);
    if c < usize::MAX {
        assert((l + 1) as int == q * m + (c + 1));
        vstd::arithmetic::div_mod::lemma_fundamental_div_mod_converse_mod((l + 1) as int, m, q, (c + 1) as int);
    } else {
        assert((l + 1) as int == (q + 1) * m + 0) by (nonlinear_arith) requires l as int == q * m + c, c == m - 1;
        vstd::arithmetic::div_mod::lemma_fundamental_div_mod_converse_mod((l + 1) as int, m, q + 1, 0);
    }
}

/// Decrementing a wrapping counter that counts `l >= 1` modulo the `usize` range counts `l - 1`.
pub proof fn lemma_wrapping_dec(c: usize, l: nat)
    requires
        l >= 1,
        c as nat == l % (usize::MAX as nat + 1),
    ensures
        vstd::wrapping::usize_specs::wrapping_sub(c, 1) as nat == (l - 1) as nat % (usize::MAX as nat + 1),
{
    let m = (usize::MAX as nat + 1) as int;
    vstd::arithmetic::div_mod::lemma_fundamental_div_mod(l as int, m);
    let q = (l as int) / m;
    assert(l as int == q * m + c);
    if c >= 1 {
        assert((l - 1) as int == q * m + (c - 1));
        vstd::arithmetic::div_mod::lemma_fundamental_div_mod_converse_mod((l - 1) as int, m, q, (c - 1) as int);
    } else {
        assert(q >= 1) by (nonlinear_arith) requires l as int == q * m + c, c == 0, l >= 1, m > 0;
        assert((l - 1) as int == (q - 1) * m + (m - 1)) by (nonlinear_arith) requires l as int == q * m + c, c == 0;
        vstd::arithmetic::div_mod::lemma_fundamental_div_mod_converse_mod((l - 1) as int, m, q - 1, m - 1);
    }
}

/// The number of devices of all the users of a table.
pub open spec fn devices_total(users: Map<Seq<char>, Seq<Seq<char>>>) -> nat
    decreases users.dom().len(),
    when users.dom().finite()
{
    if users.dom().len() == 0 {
        0
    } else {
        let k = users.dom().choose();
        users[k].len() + devices_total(users.remove(k))
    }
}

/// The devices of a table are those of one user and those of the others.
pub proof fn lemma_devices_total_remove(users: Map<Seq<char>, Seq<Seq<char>>>, k: Seq<char>)
    requires
        users.dom().finite(),
        users.contains_key(k),
    ensures
        devices_total(users) == users[k].len() + devices_total(users.remove(k)),
    decreases users.dom().len(),
{
    let c = users.dom().choose();
    assert(users.dom().contains(c));
    if c != k {
        let a = users.remove(c);
        let b = users.remove(k);
        lemma_devices_total_remove(a, k);
        lemma_devices_total_remove(b, c);
        assert(a.remove(k) =~= b.remove(c));
    }
}

/// An empty table has no devices.
pub proof fn lemma_devices_total_empty(users: Map<Seq<char>, Seq<Seq<char>>>)
    requires
        users.dom().finite(),
        users.dom().len() == 0,
    ensures
        devices_total(users) == 0,
{
}

/// The number of devices of the users of a list (an absent user counts none).
pub open spec fn devices_count(users: Map<Seq<char>, Seq<Seq<char>>>, ids: Seq<Seq<char>>) -> int
    decreases ids.len(),
{
    if ids.len() == 0 {
        0
    } else {
        devices_count(users, ids.drop_last())
            + if users.contains_key(ids.last()) { users[ids.last()].len() as int } else { 0 }
    }
}

impl ConnectionManager {
    /// The devices of each connected user.
    pub closed spec fn users(&self) -> Map<Seq<char>, Seq<Seq<char>>> {
        connection_table(self.connections)
    }

    /// The channels of each connected user's devices, in the order of `users`.
    pub closed spec fn channels(&self) -> Map<Seq<char>, Seq<UnboundedSender<Message>>> {
        connection_channels(self.connections)
    }

    /// The channels of a user's devices, in the order of `devices`; none if it is not connected.
    pub open spec fn user_channels(&self, user_id: Seq<char>) -> Seq<UnboundedSender<Message>> {
        if self.channels().contains_key(user_id) { self.channels()[user_id] } else { Seq::empty() }
    }

    /// Every text handed to a connection's channel so far, in order, with whether the channel
    /// took it.
    pub closed spec fn deliveries(&self) -> Seq<Delivery> {
        self.sent@
    }

    /// The online-user counter.
    pub closed spec fn online_counter(&self) -> usize {
        self.online_users
    }

    /// The connection counter.
    pub closed spec fn connection_counter(&self) -> usize {
        self.total_connections
    }

    /// Every listed user has at least one device, each device once, and one channel per
    /// device; the online-user counter is the number of listed users and the connection counter
    /// the number of their devices (modulo the `usize` range, as the counters wrap).
    pub open spec fn wf(&self) -> bool {
        &&& self.users().dom().finite()
        &&& forall|u: Seq<char>| #[trigger] self.users().contains_key(u) ==>
                self.users()[u].len() > 0 && self.users()[u].no_duplicates()
        &&& self.online_counter() as nat == self.users().dom().len() % (usize::MAX as nat + 1)
        &&& self.connection_counter() as nat == devices_total(self.users()) % (usize::MAX as nat + 1)
        &&& self.channels().dom() == self.users().dom()
        &&& forall|u: Seq<char>| #[trigger] self.users().contains_key(u) ==>
                self.channels()[u].len() == self.users()[u].len()
    }

    pub fn new() -> (r: Self)
        ensures
            r.wf(),
            r.users() == Map::<Seq<char>, Seq<Seq<char>>>::empty(),
            r.online_counter() == 0,
            r.connection_counter() == 0,
            r.deliveries() == Seq::<Delivery>::empty(),
    {
        let r = ConnectionManager {
            connections: connection_table_new(),
            online_users: 0,
            total_connections: 0,
            sent: Ghost(Seq::empty()),
        };
        proof {
            assert(r.users().dom() =~= Set::<Seq<char>>::empty());
            assert(r.channels().dom() =~= Set::<Seq<char>>::empty());
            assert(r.users() =~= Map::<Seq<char>, Seq<Seq<char>>>::empty());
        }
        r
    }

    /// The devices of a user, none if it is not connected.
    pub open spec fn devices(&self, user_id: Seq<char>) -> Seq<Seq<char>> {
        if self.users().contains_key(user_id) { self.users()[user_id] } else { Seq::empty() }
    }

    /// Records a connection of `device_id` for `user_id`; an older connection of the same
    /// device is replaced. The online-user counter grows when the user had no connection; the
    /// connection counter grows when the device was not connected already, as a replaced
    /// connection is no new one (both wrap around as atomic counters do).
    pub fn register(&mut self, user_id: &str, device_id: &str, sender: UnboundedSender<Message>)
        requires
            old(self).wf(),
        ensures
            final(self).wf(),
            final(self).users() == old(self).users().insert(user_id@,
                without_device(old(self).devices(user_id@), device_id@).push(device_id@)),
            final(self).users() == after_connect(old(self).users(), user_id@, device_id@),
            final(self).channels() == old(self).channels().insert(user_id@,
                kept_senders(old(self).devices(user_id@), old(self).user_channels(user_id@), device_id@).push(sender)),
            final(self).online_counter() == if old(self).users().contains_key(user_id@) {
                old(self).online_counter()
            } else {
                vstd::wrapping::usize_specs::wrapping_add(old(self).online_counter(), 1)
            },
            final(self).connection_counter() == if old(self).devices(user_id@).contains(device_id@) {
                old(self).connection_counter()
            } else {
                vstd::wrapping::usize_specs::wrapping_add(old(self).connection_counter(), 1)
            },
    {
        let existing = connection_table_get(&self.connections, user_id);
        let is_first_device = match &existing { None => true, Some(v) => v.len() == 0 };
        let mut entry: Vec<ConnectionInfo> = match existing { None => Vec::new(), Some(v) => v };
        let ghost orig = devices_of(entry@);
        let ghost orig_s = senders_of(entry@);
        assert(orig == self.devices(user_id@));
        assert(orig_s == self.user_channels(user_id@));
        let mut kept: Vec<ConnectionInfo> = Vec::new();
        let mut i: usize = 0;
        let n = entry.len();
        while entry.len() > 0
            invariant
                n == orig.len(),
                n == orig_s.len(),
                i + entry.len() == n,
                devices_of(entry@) == orig.skip(i as int),
                senders_of(entry@) == orig_s.skip(i as int),
                devices_of(kept@) == without_device(orig.take(i as int), device_id@),
                senders_of(kept@) == kept_senders(orig.take(i as int), orig_s.take(i as int), device_id@),
            decreases entry.len(),
        {
            let ghost before_entry = entry@;
            let c = entry.remove(0);
            assert(entry@ == before_entry.remove(0));
            assert forall|k: int| 0 <= k < entry@.len() implies #[trigger] devices_of(entry@)[k] == orig.skip(i + 1)[k] by {
                assert(entry@[k] == before_entry[k + 1]);
                assert(devices_of(before_entry)[k + 1] == orig.skip(i as int)[k + 1]);
            }
            assert(orig.take(i + 1).drop_last() == orig.take(i as int));
            assert(orig.take(i + 1).last() == c.device_id@) by {
                assert(orig.skip(i as int)[0] == c.device_id@);
            }
            assert(devices_of(entry@) =~= orig.skip(i + 1));
            assert forall|k: int| 0 <= k < entry@.len() implies #[trigger] senders_of(entry@)[k] == orig_s.skip(i + 1)[k] by {
                assert(entry@[k] == before_entry[k + 1]);
                assert(senders_of(before_entry)[k + 1] == orig_s.skip(i as int)[k + 1]);
            }
            assert(senders_of(entry@) =~= orig_s.skip(i + 1));
            assert(orig_s.take(i + 1).drop_last() == orig_s.take(i as int));
            assert(orig_s.take(i + 1).last() == c.sender) by {
                assert(orig_s.skip(i as int)[0] == c.sender);
            }
            if !str_eq(c.device_id.as_str(), device_id) {
                kept.push(c);
                assert(devices_of(kept@) == without_device(orig.take(i as int), device_id@).push(c.device_id@));
                assert(senders_of(kept@) == kept_senders(orig.take(i as int), orig_s.take(i as int), device_id@).push(c.sender));
            }
            i = i + 1;
        }
        assert(orig.take(n as int) == orig);
        assert(orig_s.take(n as int) == orig_s);
        let ghost filtered = devices_of(kept@);
        let ghost filtered_s = senders_of(kept@);
        let replaced = kept.len() < n;
        proof {
            lemma_without_device(orig, device_id@);
            if old(self).users().contains_key(user_id@) {
                assert(orig.no_duplicates());
            }
            assert(filtered.len() == kept@.len());
        }
        let ghost given = sender;
        kept.push(ConnectionInfo { device_id: String::from_str(device_id), sender });
        assert(devices_of(kept@) == filtered.push(device_id@));
        assert(senders_of(kept@) == filtered_s.push(given));
        connection_table_insert(&mut self.connections, String::from_str(user_id), kept);
        if is_first_device {
            self.online_users = self.online_users.wrapping_add(1);
        }
        if !replaced {
            self.total_connections = self.total_connections.wrapping_add(1);
        }
        proof {
            lemma_without_device(orig, device_id@);
            let w = filtered.push(device_id@);
            assert(w.len() > 0);
            assert(w.no_duplicates()) by {
                if old(self).users().contains_key(user_id@) {
                    assert(orig.no_duplicates());
                }
                assert forall|a: int, b: int| 0 <= a < b < w.len() implies w[a] != w[b] by {
                    if b == w.len() - 1 {
                        assert(filtered.contains(w[a]) || a == b);
                    }
                }
            }
            let old_dom = old(self).users().dom();
            if !old(self).users().contains_key(user_id@) {
                assert(self.users().dom() == old_dom.insert(user_id@));
                assert(self.users().dom().len() == old_dom.len() + 1);
                let oc = old(self).online_counter();
                let l = old_dom.len();
                lemma_wrapping_inc(oc, l);
            } else {
                assert(self.users().dom() == old_dom);
            }
            let ou = old(self).users();
            let nu = self.users();
            assert(nu == ou.insert(user_id@, w));
            assert(nu.dom().finite());
            lemma_devices_total_remove(nu, user_id@);
            assert(nu.remove(user_id@) =~= ou.remove(user_id@));
            if ou.contains_key(user_id@) {
                lemma_devices_total_remove(ou, user_id@);
            } else {
                assert(ou.remove(user_id@) =~= ou);
            }
            assert(replaced == orig.contains(device_id@));
            lemma_kept_senders_len(orig, orig_s, device_id@);
            assert(self.channels() == old(self).channels().insert(user_id@, filtered_s.push(given)));
            assert(self.channels().dom() == self.users().dom());
            if !replaced {
                assert(w.len() == orig.len() + 1);
                lemma_wrapping_inc(old(self).connection_counter(), devices_total(ou));
            } else {
                assert(w.len() == orig.len());
            }
        }
    }

    /// Drops the connection of `device_id` for `user_id`. The connection counter shrinks when a
    /// connection was dropped; a user left with no device is no longer listed and the
    /// online-user counter shrinks (both counters wrap around as atomic counters do).
    pub fn unregister(&mut self, user_id: &str, device_id: &str)
        requires
            old(self).wf(),
        ensures
            final(self).wf(),
            final(self).users() == after_disconnect(old(self).users(), user_id@, device_id@),
            !old(self).users().contains_key(user_id@) ==> final(self).users() == old(self).users()
                && final(self).online_counter() == old(self).online_counter()
                && final(self).connection_counter() == old(self).connection_counter(),
            old(self).users().contains_key(user_id@) ==> {
                let rest = without_device(old(self).users()[user_id@], device_id@);
                &&& final(self).users() == if rest.len() == 0 {
                        old(self).users().remove(user_id@)
                    } else {
                        old(self).users().insert(user_id@, rest)
                    }
                &&& final(self).online_counter() == if rest.len() == 0 {
                        vstd::wrapping::usize_specs::wrapping_sub(old(self).online_counter(), 1)
                    } else {
                        old(self).online_counter()
                    }
                &&& final(self).channels() == if rest.len() == 0 {
                        old(self).channels().remove(user_id@)
                    } else {
                        old(self).channels().insert(user_id@,
                            kept_senders(old(self).users()[user_id@], old(self).channels()[user_id@], device_id@))
                    }
                &&& final(self).connection_counter() == if old(self).users()[user_id@].contains(device_id@) {
                        vstd::wrapping::usize_specs::wrapping_sub(old(self).connection_counter(), 1)
                    } else {
                        old(self).connection_counter()
                    }
            },
    {
        let existing = connection_table_get(&self.connections, user_id);
        let mut entry: Vec<ConnectionInfo> = match existing { None => return, Some(v) => v };
        let ghost orig = devices_of(entry@);
        let ghost orig_s = senders_of(entry@);
        let before_len = entry.len();
        let mut kept: Vec<ConnectionInfo> = Vec::new();
        let mut i: usize = 0;
        let n = entry.len();
        while entry.len() > 0
            invariant
                n == orig.len(),
                n == orig_s.len(),
                i + entry.len() == n,
                devices_of(entry@) == orig.skip(i as int),
                senders_of(entry@) == orig_s.skip(i as int),
                devices_of(kept@) == without_device(orig.take(i as int), device_id@),
                senders_of(kept@) == kept_senders(orig.take(i as int), orig_s.take(i as int), device_id@),
            decreases entry.len(),
        {
            let ghost before_entry = entry@;
            let c = entry.remove(0);
            assert(entry@ == before_entry.remove(0));
            assert forall|k: int| 0 <= k < entry@.len() implies #[trigger] devices_of(entry@)[k] == orig.skip(i + 1)[k] by {
                assert(entry@[k] == before_entry[k + 1]);
                assert(devices_of(before_entry)[k + 1] == orig.skip(i as int)[k + 1]);
            }
            assert(orig.take(i + 1).drop_last() == orig.take(i as int));
            assert(orig.take(i + 1).last() == c.device_id@) by {
                assert(orig.skip(i as int)[0] == c.device_id@);
            }
            assert(devices_of(entry@) =~= orig.skip(i + 1));
            assert forall|k: int| 0 <= k < entry@.len() implies #[trigger] senders_of(entry@)[k] == orig_s.skip(i + 1)[k] by {
                assert(entry@[k] == before_entry[k + 1]);
                assert(senders_of(before_entry)[k + 1] == orig_s.skip(i as int)[k + 1]);
            }
            assert(senders_of(entry@) =~= orig_s.skip(i + 1));
            assert(orig_s.take(i + 1).drop_last() == orig_s.take(i as int));
            assert(orig_s.take(i + 1).last() == c.sender) by {
                assert(orig_s.skip(i as int)[0] == c.sender);
            }
            if !str_eq(c.device_id.as_str(), device_id) {
                kept.push(c);
                assert(devices_of(kept@) == without_device(orig.take(i as int), device_id@).push(c.device_id@));
                assert(senders_of(kept@) == kept_senders(orig.take(i as int), orig_s.take(i as int), device_id@).push(c.sender));
            }
            i = i + 1;
        }
        assert(orig.take(n as int) == orig);
        assert(orig_s.take(n as int) == orig_s);
        proof { lemma_without_device(orig, device_id@); }
        if before_len > kept.len() {
            self.total_connections = self.total_connections.wrapping_sub(1);
        }
        let ghost rest = devices_of(kept@);
        if kept.len() == 0 {
            connection_table_remove(&mut self.connections, user_id);
            self.online_users = self.online_users.wrapping_sub(1);
            proof {
                let old_dom = old(self).users().dom();
                assert(self.users().dom() == old_dom.remove(user_id@));
                lemma_wrapping_dec(old(self).online_counter(), old_dom.len());
            }
        } else {
            connection_table_insert(&mut self.connections, String::from_str(user_id), kept);
            proof {
                assert(self.users().dom() == old(self).users().dom());
                lemma_devices_total_remove(self.users(), user_id@);
                assert(self.users().remove(user_id@) =~= old(self).users().remove(user_id@));
            }
        }
        proof {
            let ou = old(self).users();
            lemma_devices_total_remove(ou, user_id@);
            assert(orig.no_duplicates());
            if kept@.len() == 0 {
                assert(self.users() =~= ou.remove(user_id@));
            }
            if orig.contains(device_id@) {
                assert(rest.len() == orig.len() - 1);
                lemma_wrapping_dec(old(self).connection_counter(), devices_total(ou));
            } else {
                assert(rest.len() == orig.len());
            }
        }
    }

    /// Whether the user has an open connection.
    pub fn is_online(&self, user_id: &str) -> (r: bool)
        requires
            self.wf(),
        ensures
            r == self.users().contains_key(user_id@),
    {
        match connection_table_get(&self.connections, user_id) {
            Some(v) => v.len() > 0,
            None => false,
        }
    }

    /// The devices of a user, in connection order.
    pub fn get_user_devices(&self, user_id: &str) -> (r: Vec<String>)
        ensures
            strings_view(r@) == self.devices(user_id@),
    {
        let entry = match connection_table_get(&self.connections, user_id) {
            Some(v) => v,
            None => {
                let r: Vec<String> = Vec::new();
                assert(strings_view(r@) =~= Seq::<Seq<char>>::empty());
                return r;
            }
        };
        let mut r: Vec<String> = Vec::new();
        let mut i: usize = 0;
        while i < entry.len()
            invariant
                i <= entry.len(),
                r@.len() == i,
                strings_view(r@) == devices_of(entry@).take(i as int),
            decreases entry.len() - i,
        {
            let ghost before = r@;
            let d = entry[i].device_id.clone();
            r.push(d);
            assert(r@ == before.push(d));
            assert(strings_view(r@) =~= strings_view(before).push(d@));
            assert(devices_of(entry@).take(i + 1) =~= devices_of(entry@).take(i as int).push(d@));
            i = i + 1;
        }
        assert(devices_of(entry@).take(entry@.len() as int) == devices_of(entry@));
        r
    }

    /// The online-user counter.
    pub fn online_user_count(&self) -> (r: usize)
        ensures
            r == self.online_counter(),
    {
        self.online_users
    }

    /// The connection counter.
    pub fn total_connection_count(&self) -> (r: usize)
        ensures
            r == self.connection_counter(),
    {
        self.total_connections
    }

    /// The connected users, each once, in no particular order.
    pub fn get_online_users(&self) -> (r: Vec<String>)
        ensures
            strings_view(r@).to_set() == self.users().dom(),
            strings_view(r@).no_duplicates(),
    {
        connection_table_keys(&self.connections)
    }

    /// The connections of a user, in connection order: the targets of a message to the user.
    pub fn user_connections(&self, user_id: &str) -> (r: Vec<ConnectionInfo>)
        ensures
            devices_of(r@) == self.devices(user_id@),
            senders_of(r@) == self.user_channels(user_id@),
    {
        match connection_table_get(&self.connections, user_id) {
            Some(v) => v,
            None => {
                let r: Vec<ConnectionInfo> = Vec::new();
                assert(devices_of(r@) =~= Seq::<Seq<char>>::empty());
                assert(senders_of(r@) =~= Seq::<UnboundedSender<Message>>::empty());
                r
            }
        }
    }

    /// The connection of one device of a user, if it is connected: the target of a message to
    /// that device.
    pub fn device_connection(&self, user_id: &str, device_id: &str) -> (r: Option<ConnectionInfo>)
        ensures
            match r {
                Some(c) => c.device_id@ == device_id@ && exists|i: int| 0 <= i < self.devices(user_id@).len()
                    && self.devices(user_id@)[i] == device_id@ && #[trigger] self.user_channels(user_id@)[i] == c.sender,
                None => !self.devices(user_id@).contains(device_id@),
            },
    {
        let mut entry = self.user_connections(user_id);
        let ghost devs = devices_of(entry@);
        let ghost snds = senders_of(entry@);
        let mut i: usize = 0;
        while i < entry.len()
            invariant
                i <= entry.len(),
                devs == devices_of(entry@),
                devs == self.devices(user_id@),
                snds == senders_of(entry@),
                snds == self.user_channels(user_id@),
                forall|k: int| 0 <= k < i ==> devs[k] != device_id@,
            decreases entry.len() - i,
        {
            if str_eq(entry[i].device_id.as_str(), device_id) {
                assert(devs[i as int] == device_id@);
                let ghost at = i as int;
                let c = entry.remove(i);
                assert(snds[at] == c.sender);
                return Some(c);
            }
            i = i + 1;
        }
        proof {
            if devs.contains(device_id@) {
                let k = choose|k: int| 0 <= k < devs.len() && devs[k] == device_id@;
                assert(devs[k] != device_id@);
            }
        }
        None
    }

    /// The connections of a user's devices other than `exclude_device_id`, in connection order:
    /// the targets of a message to the user's other devices.
    pub fn other_device_connections(&self, user_id: &str, exclude_device_id: &str) -> (r: Vec<ConnectionInfo>)
        ensures
            devices_of(r@) == without_device(self.devices(user_id@), exclude_device_id@),
            senders_of(r@) == kept_senders(self.devices(user_id@), self.user_channels(user_id@), exclude_device_id@),
    {
        let mut entry = self.user_connections(user_id);
        let ghost devs = devices_of(entry@);
        let ghost snds = senders_of(entry@);
        let mut kept: Vec<ConnectionInfo> = Vec::new();
        let mut i: usize = 0;
        let n = entry.len();
        while entry.len() > 0
            invariant
                n == devs.len(),
                n == snds.len(),
                i + entry.len() == n,
                devices_of(entry@) == devs.skip(i as int),
                senders_of(entry@) == snds.skip(i as int),
                devices_of(kept@) == without_device(devs.take(i as int), exclude_device_id@),
                senders_of(kept@) == kept_senders(devs.take(i as int), snds.take(i as int), exclude_device_id@),
            decreases entry.len(),
        {
            let ghost before_entry = entry@;
            let c = entry.remove(0);
            assert(entry@ == before_entry.remove(0));
            assert forall|k: int| 0 <= k < entry@.len() implies #[trigger] devices_of(entry@)[k] == devs.skip(i + 1)[k] by {
                assert(entry@[k] == before_entry[k + 1]);
                assert(devices_of(before_entry)[k + 1] == devs.skip(i as int)[k + 1]);
            }
            assert(devs.take(i + 1).drop_last() == devs.take(i as int));
            assert(devs.take(i + 1).last() == c.device_id@) by {
                assert(devs.skip(i as int)[0] == c.device_id@);
            }
            assert(devices_of(entry@) =~= devs.skip(i + 1));
            assert forall|k: int| 0 <= k < entry@.len() implies #[trigger] senders_of(entry@)[k] == snds.skip(i + 1)[k] by {
                assert(entry@[k] == before_entry[k + 1]);
                assert(senders_of(before_entry)[k + 1] == snds.skip(i as int)[k + 1]);
            }
            assert(senders_of(entry@) =~= snds.skip(i + 1));
            assert(snds.take(i + 1).drop_last() == snds.take(i as int));
            assert(snds.take(i + 1).last() == c.sender) by {
                assert(snds.skip(i as int)[0] == c.sender);
            }
            if !str_eq(c.device_id.as_str(), exclude_device_id) {
                kept.push(c);
                assert(devices_of(kept@) == without_device(devs.take(i as int), exclude_device_id@).push(c.device_id@));
                assert(senders_of(kept@) == kept_senders(devs.take(i as int), snds.take(i as int), exclude_device_id@).push(c.sender));
            }
            i = i + 1;
        }
        assert(devs.take(n as int) == devs);
        assert(snds.take(n as int) == snds);
        kept
    }

    /// The channels of a list of connections, in order.
    fn senders_vec(v: Vec<ConnectionInfo>) -> (r: Vec<UnboundedSender<Message>>)
        ensures
            r@ == senders_of(v@),
    {
        let mut rest = v;
        let ghost all = rest@;
        let mut r: Vec<UnboundedSender<Message>> = Vec::new();
        let mut i: usize = 0;
        let n = rest.len();
        while rest.len() > 0
            invariant
                n == all.len(),
                i + rest.len() == n,
                rest@ == all.skip(i as int),
                r@ == senders_of(all.take(i as int)),
            decreases rest.len(),
        {
            let ghost before = rest@;
            let c = rest.remove(0);
            assert(rest@ =~= all.skip(i + 1)) by {
                assert(rest@ == before.remove(0));
            }
            assert(before[0] == all[i as int]);
            r.push(c.sender);
            assert(r@ =~= senders_of(all.take(i + 1)));
            i = i + 1;
        }
        assert(all.take(n as int) =~= all);
        r
    }

    /// Sends a text message to every device of a user, once per connection: the text is
    /// handed to each of the user's channels in order, and nothing else is sent. Gives the
    /// number of channels that took it.
    pub fn send_to_user(&mut self, user_id: &str, text: &str) -> (r: usize)
        ensures
            final(self).users() == old(self).users(),
            final(self).channels() == old(self).channels(),
            final(self).online_counter() == old(self).online_counter(),
            final(self).connection_counter() == old(self).connection_counter(),
            exists|outcomes: Seq<bool>| outcomes.len() == old(self).user_channels(user_id@).len()
                && final(self).deliveries() == old(self).deliveries()
                    + deliveries_to(old(self).user_channels(user_id@), text@, outcomes)
                && r == #[trigger] count_true(outcomes),
            r <= old(self).devices(user_id@).len(),
    {
        let targets = self.user_connections(user_id);
        proof { assert(devices_of(targets@).len() == senders_of(targets@).len()); }
        let senders = Self::senders_vec(targets);
        let results = send_all_recorded(&mut self.sent, &senders, text);
        proof { lemma_count_true_bound(results@); }
        count_delivered(&results)
    }

    /// Sends a text message to one device of a user: the text is handed to that device's
    /// channel when it is connected, and nothing is sent otherwise. True when the channel took
    /// it.
    pub fn send_to_device(&mut self, user_id: &str, device_id: &str, text: &str) -> (r: bool)
        ensures
            final(self).users() == old(self).users(),
            final(self).channels() == old(self).channels(),
            final(self).online_counter() == old(self).online_counter(),
            final(self).connection_counter() == old(self).connection_counter(),
            r ==> old(self).devices(user_id@).contains(device_id@),
            !old(self).devices(user_id@).contains(device_id@) ==> final(self).deliveries() == old(self).deliveries(),
            old(self).devices(user_id@).contains(device_id@) ==> exists|i: int| 0 <= i < old(self).devices(user_id@).len()
                && old(self).devices(user_id@)[i] == device_id@
                && final(self).deliveries() == old(self).deliveries().push(
                    (#[trigger] old(self).user_channels(user_id@)[i], text@, r)),
    {
        match self.device_connection(user_id, device_id) {
            Some(c) => send_recorded(&mut self.sent, &c.sender, text),
            None => false,
        }
    }

    /// Sends a text message to every device of several users, once per connection of each
    /// listed user in the order listed: the text is handed to the channels of each user in
    /// turn, and nothing else is sent. Gives the number of channels that took it, at most their
    /// number of devices (which must fit a `usize`).
    pub fn send_to_users(&mut self, user_ids: &Vec<String>, text: &str) -> (r: usize)
        requires
            devices_count(old(self).users(), strings_view(user_ids@)) <= usize::MAX,
        ensures
            final(self).users() == old(self).users(),
            final(self).channels() == old(self).channels(),
            final(self).online_counter() == old(self).online_counter(),
            final(self).connection_counter() == old(self).connection_counter(),
            exists|outcomes: Seq<bool>|
                outcomes.len() == channels_of_users(old(self).channels(), strings_view(user_ids@)).len()
                && final(self).deliveries() == old(self).deliveries()
                    + deliveries_to(channels_of_users(old(self).channels(), strings_view(user_ids@)), text@, outcomes)
                && r == #[trigger] count_true(outcomes),
            r <= devices_count(old(self).users(), strings_view(user_ids@)),
    {
        let ghost ids = strings_view(user_ids@);
        let ghost chans = old(self).channels();
        let ghost log0 = old(self).deliveries();
        let ghost mut all: Seq<bool> = Seq::empty();
        let mut total: usize = 0;
        let mut k: usize = 0;
        while k < user_ids.len()
            invariant
                k <= user_ids.len(),
                ids == strings_view(user_ids@),
                self.users() == old(self).users(),
                self.channels() == chans,
                self.online_counter() == old(self).online_counter(),
                self.connection_counter() == old(self).connection_counter(),
                devices_count(self.users(), ids) <= usize::MAX,
                all.len() == channels_of_users(chans, ids.take(k as int)).len(),
                self.deliveries() == log0 + deliveries_to(channels_of_users(chans, ids.take(k as int)), text@, all),
                total == count_true(all),
                total <= devices_count(self.users(), ids.take(k as int)),
            decreases user_ids.len() - k,
        {
            assert(ids.take(k + 1).drop_last() == ids.take(k as int));
            assert(ids.take(k + 1).last() == user_ids@[k as int]@);
            proof { lemma_devices_count_prefix(self.users(), ids, k + 1); }
            let ghost before = self.deliveries();
            let ghost u = user_ids@[k as int]@;
            let sent = self.send_to_user(user_ids[k].as_str(), text);
            proof {
                let o = choose|o: Seq<bool>| o.len() == self.user_channels(u).len()
                    && self.deliveries() == before + deliveries_to(self.user_channels(u), text@, o)
                    && sent == #[trigger] count_true(o);
                lemma_count_true_concat(all, o);
                let prev = channels_of_users(chans, ids.take(k as int));
                assert(channels_of_users(chans, ids.take(k + 1)) == prev + self.user_channels(u));
                lemma_deliveries_concat(prev, self.user_channels(u), text@, all, o);
                assert(self.deliveries() =~= log0 + deliveries_to(prev + self.user_channels(u), text@, all + o));
                all = all + o;
            }
            total = total + sent;
            k = k + 1;
        }
        assert(ids.take(user_ids.len() as int) == ids);
        total
    }

    /// Sends a text message to the devices of a user other than `exclude_device_id`, once per
    /// connection: the text is handed to each of those devices' channels in order, and nothing
    /// else is sent. Gives the number of channels that took it.
    pub fn send_to_other_devices(&mut self, user_id: &str, exclude_device_id: &str, text: &str) -> (r: usize)
        ensures
            final(self).users() == old(self).users(),
            final(self).channels() == old(self).channels(),
            final(self).online_counter() == old(self).online_counter(),
            final(self).connection_counter() == old(self).connection_counter(),
            exists|outcomes: Seq<bool>|
                outcomes.len() == kept_senders(old(self).devices(user_id@), old(self).user_channels(user_id@), exclude_device_id@).len()
                && final(self).deliveries() == old(self).deliveries() + deliveries_to(
                    kept_senders(old(self).devices(user_id@), old(self).user_channels(user_id@), exclude_device_id@),
                    text@, outcomes)
                && r == #[trigger] count_true(outcomes),
            r <= without_device(old(self).devices(user_id@), exclude_device_id@).len(),
    {
        let targets = self.other_device_connections(user_id, exclude_device_id);
        proof { assert(devices_of(targets@).len() == senders_of(targets@).len()); }
        let senders = Self::senders_vec(targets);
        let results = send_all_recorded(&mut self.sent, &senders, text);
        proof { lemma_count_true_bound(results@); }
        count_delivered(&results)
    }
}

/// The channels of the listed users, user after user (an absent user has none).
pub open spec fn channels_of_users(channels: Map<Seq<char>, Seq<UnboundedSender<Message>>>, ids: Seq<Seq<char>>)
    -> Seq<UnboundedSender<Message>>
    decreases ids.len(),
{
    if ids.len() == 0 {
        Seq::empty()
    } else {
        channels_of_users(channels, ids.drop_last())
            + if channels.contains_key(ids.last()) { channels[ids.last()] } else { Seq::empty() }
    }
}

/// Deliveries to two runs of channels are those to each run.
pub proof fn lemma_deliveries_concat(
    a: Seq<UnboundedSender<Message>>,
    b: Seq<UnboundedSender<Message>>,
    text: Seq<char>,
    oa: Seq<bool>,
    ob: Seq<bool>,
)
    requires
        oa.len() == a.len(),
        ob.len() == b.len(),
    ensures
        deliveries_to(a + b, text, oa + ob) == deliveries_to(a, text, oa) + deliveries_to(b, text, ob),
{
    assert(deliveries_to(a + b, text, oa + ob) =~= deliveries_to(a, text, oa) + deliveries_to(b, text, ob));
}

/// The number of `true` outcomes.
pub open spec fn count_true(outcomes: Seq<bool>) -> nat
    decreases outcomes.len(),
{
    if outcomes.len() == 0 {
        0
    } else {
        count_true(outcomes.drop_last()) + if outcomes.last() { 1nat } else { 0nat }
    }
}

/// No more outcomes are `true` than there are outcomes.
pub proof fn lemma_count_true_bound(outcomes: Seq<bool>)
    ensures
        count_true(outcomes) <= outcomes.len(),
    decreases outcomes.len(),
{
    if outcomes.len() > 0 {
        lemma_count_true_bound(outcomes.drop_last());
    }
}

/// The `true` outcomes of two runs of sends together are those of each.
pub proof fn lemma_count_true_concat(a: Seq<bool>, b: Seq<bool>)
    ensures
        count_true(a + b) == count_true(a) + count_true(b),
    decreases b.len(),
{
    if b.len() > 0 {
        lemma_count_true_concat(a, b.drop_last());
        assert((a + b).drop_last() =~= a + b.drop_last());
        assert((a + b).last() == b.last());
    } else {
        assert(a + b =~= a);
    }
}

/// The number of sends that were handed over, from their outcomes.
pub fn count_delivered(outcomes: &Vec<bool>) -> (r: usize)
    ensures
        r == count_true(outcomes@),
{
    let mut n: usize = 0;
    let mut i: usize = 0;
    while i < outcomes.len()
        invariant
            i <= outcomes.len(),
            n == count_true(outcomes@.take(i as int)),
            n <= i,
        decreases outcomes.len() - i,
    {
        assert(outcomes@.take(i + 1).drop_last() =~= outcomes@.take(i as int));
        if outcomes[i] {
            n = n + 1;
        }
        i = i + 1;
    }
    assert(outcomes@.take(outcomes.len() as int) =~= outcomes@);
    n
}

/// The devices of a prefix of a list of users are no more than those of the whole list.
pub proof fn lemma_devices_count_prefix(users: Map<Seq<char>, Seq<Seq<char>>>, ids: Seq<Seq<char>>, k: int)
    requires
        0 <= k <= ids.len(),
    ensures
        0 <= devices_count(users, ids.take(k)) <= devices_count(users, ids),
    decreases ids.len(),
{
    if k < ids.len() {
        assert(ids.drop_last().take(k) == ids.take(k));
        lemma_devices_count_prefix(users, ids.drop_last(), k);
    } else {
        assert(ids.take(k) == ids);
        lemma_devices_count_nonneg(users, ids);
    }
}

pub proof fn lemma_devices_count_nonneg(users: Map<Seq<char>, Seq<Seq<char>>>, ids: Seq<Seq<char>>)
    ensures
        0 <= devices_count(users, ids),
    decreases ids.len(),
{
    if ids.len() > 0 {
        lemma_devices_count_nonneg(users, ids.drop_last());
    }
}

} // verus!
