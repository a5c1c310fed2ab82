use std::collections::HashMap;

use vstd::prelude::*;

use crate::addr::SocketAddress;
use crate::capability::CapabilitySet;
use crate::clock::{elapsed, Timestamp};
use crate::ids::{fresh_v7, uuid_string, uuid_text, uuid_variant, uuid_version};
use crate::table::{keys_of, lemma_entry_in_map, lemma_key_has_entry, map_of, IdTable};

verus! {

/// Network-unique identifier for a device: the 128 bits of a UUID.
#[derive(Debug, Clone, Copy, PartialEq, Eq, Structural, PartialOrd, Ord, Hash)]
pub struct DeviceId(pub u128);

impl DeviceId {
    /// Mints a new time-ordered (v7) identifier.
    pub fn new() -> (id: Self)
        ensures
            uuid_version(id.0) == 7,
            uuid_variant(id.0) == 2,
    {
        DeviceId(fresh_v7())
    }

    pub fn as_u128(self) -> (v: u128)
        ensures
            v == self.0,
    {
        self.0
    }

    /// The identifier as `uuid::Uuid` displays it: hyphenated lower-case hex.
    pub fn to_string(&self) -> (s: String)
        ensures
            s@ == uuid_text(self.0),
    {
        uuid_string(self.0)
    }
}

impl Default for DeviceId {
    /// A freshly minted identifier.
    fn default() -> (id: Self)
        ensures
            uuid_version(id.0) == 7,
            uuid_variant(id.0) == 2,
    {
        DeviceId::new()
    }
}

/// Part a device plays in the network.
#[derive(Debug, Clone, Copy, PartialEq, Eq, Structural, Hash)]
pub enum NodeRole {
    Leader,
    Worker,
}

impl NodeRole {
    pub fn is_leader(self) -> (b: bool)
        ensures
            b == (self == NodeRole::Leader),
    {
        match self {
            NodeRole::Leader => true,
            NodeRole::Worker => false,
        }
    }

    pub fn is_worker(self) -> (b: bool)
        ensures
            b == (self == NodeRole::Worker),
    {
        match self {
            NodeRole::Leader => false,
            NodeRole::Worker => true,
        }
    }
}

/// Coarse liveness/connection state of a device.
#[derive(Debug, Clone, Copy, PartialEq, Eq, Structural, Hash)]
pub enum DeviceState {
    Connecting,
    Online,
    Degraded,
    Offline,
    ShuttingDown,
}

/// Static description of a known device plus its most recent liveness data.
#[derive(Debug, PartialEq, Eq)]
pub struct DeviceInfo {
    pub id: DeviceId,
    pub role: NodeRole,
    pub addr: SocketAddress,
    pub capabilities: CapabilitySet,
    pub state: DeviceState,
    pub last_seen: Timestamp,
    pub metadata: HashMap<String, String>,
}

/// What a [`DeviceInfo`] holds, as plain values.
pub struct DeviceInfoView {
    pub id: DeviceId,
    pub role: NodeRole,
    pub addr: SocketAddress,
    pub capabilities: Set<Seq<char>>,
    pub state: DeviceState,
    pub last_seen: Timestamp,
    pub metadata: Map<String, String>,
}

impl View for DeviceInfo {
    type V = DeviceInfoView;

    open spec fn view(&self) -> DeviceInfoView {
        DeviceInfoView {
            id: self.id,
            role: self.role,
            addr: self.addr,
            capabilities: self.capabilities@,
            state: self.state,
            last_seen: self.last_seen,
            metadata: self.metadata@,
        }
    }
}

impl DeviceInfo {
    /// A freshly discovered device: connecting, never seen, no capabilities.
    pub fn new(id: DeviceId, role: NodeRole, addr: SocketAddress) -> (info: Self)
        ensures
            info.id == id,
            info.role == role,
            info.addr == addr,
            info.capabilities.wf(),
            info.capabilities@ == Set::<Seq<char>>::empty(),
            info.state == DeviceState::Connecting,
            info.last_seen.0 == 0,
            info.metadata@ == Map::<String, String>::empty(),
    {
        DeviceInfo {
            id,
            role,
            addr,
            capabilities: CapabilitySet::new(),
            state: DeviceState::Connecting,
            last_seen: Timestamp::zero(),
            metadata: HashMap::new(),
        }
    }

    /// Whether the device offers every capability in `required`.
    pub fn supports(&self, required: &CapabilitySet) -> (b: bool)
        ensures
            b == required@.subset_of(self.capabilities@),
    {
        self.capabilities.satisfies(required)
    }

}

impl Clone for DeviceInfo {
    fn clone(&self) -> (info: Self)
        ensures
            info@ == self@,
            info.capabilities.wf() == self.capabilities.wf(),
    {
        DeviceInfo {
            id: self.id,
            role: self.role,
            addr: self.addr,
            capabilities: self.capabilities.clone(),
            state: self.state,
            last_seen: self.last_seen,
            metadata: self.metadata.clone(),
        }
    }
}

/// Anything that can act as a network node.
pub trait Device {
    fn id(&self) -> DeviceId;

    fn role(&self) -> NodeRole;

    fn capabilities(&self) -> &CapabilitySet;

    fn state(&self) -> DeviceState;
}

impl Device for DeviceInfo {
    fn id(&self) -> (id: DeviceId)
        ensures
            id == self.id,
    {
        self.id
    }

    fn role(&self) -> (role: NodeRole)
        ensures
            role == self.role,
    {
        self.role
    }

    fn capabilities(&self) -> (c: &CapabilitySet)
        ensures
            c == &self.capabilities,
    {
        &self.capabilities
    }

    fn state(&self) -> (s: DeviceState)
        ensures
            s == self.state,
    {
        self.state
    }
}

// ---------------------------------------------------------------------------
// Heartbeats
// ---------------------------------------------------------------------------

/// Tuning knobs for heartbeat emission and expiry.
#[derive(Debug, Clone, Copy, PartialEq, Eq, Structural)]
pub struct HeartbeatConfig {
    /// How often the node emits a heartbeat.
    pub interval_ms: u64,
    /// How long without a heartbeat before a peer is considered suspect.
    pub timeout_ms: u64,
    /// Consecutive missed timeouts before a peer is declared dead.
    pub max_missed: u32,
}

impl Default for HeartbeatConfig {
    fn default() -> (c: Self)
        ensures
            c.interval_ms == 1000,
            c.timeout_ms == 3000,
            c.max_missed == 3,
    {
        HeartbeatConfig { interval_ms: 1_000, timeout_ms: 3_000, max_missed: 3 }
    }
}

/// A single heartbeat pulse.
#[derive(Debug, Clone, Copy, PartialEq, Eq, Structural)]
pub struct Heartbeat {
    pub device: DeviceId,
    pub seq: u64,
    pub sent_at: Timestamp,
}

impl Heartbeat {
    pub fn new(device: DeviceId, seq: u64, sent_at: Timestamp) -> (h: Self)
        ensures
            h.device == device,
            h.seq == seq,
            h.sent_at == sent_at,
    {
        Heartbeat { device, seq, sent_at }
    }
}

/// Result of evaluating a peer's heartbeat.
#[derive(Debug, Clone, Copy, PartialEq, Eq, Structural)]
pub enum Liveness {
    Alive,
    Suspect,
    Dead,
}

/// Emits a monotonically increasing heartbeat for a device.
pub trait HeartbeatSource {
    fn next_heartbeat(&self) -> Heartbeat;

    fn config(&self) -> HeartbeatConfig;
}

/// Receives heartbeats from peers.
pub trait HeartbeatSink {
    fn on_heartbeat(&self, heartbeat: Heartbeat, received_at: Timestamp) -> Liveness;
}

/// Last-seen data kept for one peer.
#[derive(Debug, Clone, Copy, PartialEq, Eq, Structural)]
pub struct PeerRecord {
    pub last_seen: Timestamp,
    pub last_seq: u64,
    pub missed: u32,
}

/// `a * b`, or `u64::MAX` where the product does not fit.
pub open spec fn saturating_product(a: u64, b: u64) -> u64 {
    if a * b <= u64::MAX {
        (a * b) as u64
    } else {
        u64::MAX
    }
}

/// A peer last seen at `last_seen` is alive until `timeout_ms` has passed,
/// suspect until `max_missed` timeouts have passed, and dead after that.
pub open spec fn liveness_at(last_seen: Timestamp, config: HeartbeatConfig, now: Timestamp) -> Liveness {
    let e = elapsed(now, last_seen);
    if e <= config.timeout_ms {
        Liveness::Alive
    } else if e <= saturating_product(config.timeout_ms, config.max_missed as u64) {
        Liveness::Suspect
    } else {
        Liveness::Dead
    }
}

fn evaluate(entry: PeerRecord, config: HeartbeatConfig, now: Timestamp) -> (l: Liveness)
    ensures
        l == liveness_at(entry.last_seen, config, now),
{
    let elapsed = now.elapsed_since(entry.last_seen);
    let limit = match config.timeout_ms.checked_mul(config.max_missed as u64) {
        Some(product) => product,
        None => u64::MAX,
    };
    if elapsed <= config.timeout_ms {
        Liveness::Alive
    } else if elapsed <= limit {
        Liveness::Suspect
    } else {
        Liveness::Dead
    }
}

/// The identifiers, in table order, of the peers that are dead at `now`.
pub open spec fn dead_peers(s: Seq<(u128, PeerRecord)>, config: HeartbeatConfig, now: Timestamp) -> Seq<DeviceId>
    decreases s.len(),
{
    if s.len() == 0 {
        Seq::empty()
    } else {
        let rest = dead_peers(s.drop_last(), config, now);
        if liveness_at(s.last().1.last_seen, config, now) == Liveness::Dead {
            rest.push(DeviceId(s.last().0))
        } else {
            rest
        }
    }
}

/// Liveness of every peer, in table order.
pub open spec fn poll_of(s: Seq<(u128, PeerRecord)>, config: HeartbeatConfig, now: Timestamp) -> Seq<(DeviceId, Liveness)> {
    s.map_values(|e: (u128, PeerRecord)| (DeviceId(e.0), liveness_at(e.1.last_seen, config, now)))
}

/// Tracks last-seen data for a set of peers and derives [`Liveness`].
#[derive(Debug)]
pub struct HeartbeatMonitor {
    config: HeartbeatConfig,
    peer_table: IdTable<PeerRecord>,
}

impl HeartbeatMonitor {
    pub closed spec fn wf(&self) -> bool {
        self.peer_table.wf()
    }

    /// The configuration the monitor evaluates with.
    pub closed spec fn settings(&self) -> HeartbeatConfig {
        self.config
    }

    /// The record kept for each tracked peer, by identifier.
    pub closed spec fn peers(&self) -> Map<u128, PeerRecord> {
        self.peer_table@
    }

    /// The tracked peers in the order they were first registered.
    pub closed spec fn peer_seq(&self) -> Seq<(u128, PeerRecord)> {
        self.peer_table.seq()
    }

    /// The peer sequence lists each tracked peer once, with its record.
    pub proof fn lemma_peer_seq(&self)
        requires
            self.wf(),
        ensures
            keys_of(self.peer_seq()).no_duplicates(),
            self.peers() == map_of(self.peer_seq()),
    {
        self.peer_table.lemma_table();
    }

    pub fn new(config: HeartbeatConfig) -> (m: Self)
        ensures
            m.wf(),
            m.settings() == config,
            m.peers() == Map::<u128, PeerRecord>::empty(),
    {
        HeartbeatMonitor { config, peer_table: IdTable::new() }
    }

    pub fn config(&self) -> (c: HeartbeatConfig)
        ensures
            c == self.settings(),
    {
        self.config
    }

    /// Starts (or restarts) tracking `id`, as last seen at `now`.
    pub fn register(&mut self, id: DeviceId, now: Timestamp)
        requires
            old(self).wf(),
        ensures
            final(self).wf(),
            final(self).settings() == old(self).settings(),
            final(self).peers() == old(self).peers().insert(id.0, PeerRecord { last_seen: now, last_seq: 0, missed: 0 }),
    {
        self.peer_table.insert(id.0, PeerRecord { last_seen: now, last_seq: 0, missed: 0 });
    }

    /// Stops tracking `id`; `true` when it was tracked.
    pub fn remove(&mut self, id: DeviceId) -> (b: bool)
        requires
            old(self).wf(),
        ensures
            final(self).wf(),
            final(self).settings() == old(self).settings(),
            final(self).peers() == old(self).peers().remove(id.0),
            b == old(self).peers().contains_key(id.0),
    {
        self.peer_table.remove(id.0).is_some()
    }

    /// Records a heartbeat from `id` received at `received_at`; the peer is
    /// tracked from then on and is alive.
    pub fn observe(&mut self, id: DeviceId, heartbeat: &Heartbeat, received_at: Timestamp) -> (l: Liveness)
        requires
            old(self).wf(),
        ensures
            final(self).wf(),
            final(self).settings() == old(self).settings(),
            final(self).peers() == old(self).peers().insert(
                id.0,
                PeerRecord { last_seen: received_at, last_seq: heartbeat.seq, missed: 0 },
            ),
            l == Liveness::Alive,
    {
        self.peer_table.insert(id.0, PeerRecord { last_seen: received_at, last_seq: heartbeat.seq, missed: 0 });
        Liveness::Alive
    }

    /// Liveness of `id` at `now`; an untracked peer is dead.
    pub fn liveness(&self, id: DeviceId, now: Timestamp) -> (l: Liveness)
        requires
            self.wf(),
        ensures
            l == (if self.peers().contains_key(id.0) {
                liveness_at(self.peers()[id.0].last_seen, self.settings(), now)
            } else {
                Liveness::Dead
            }),
    {
        match self.peer_table.get(id.0) {
            Some(entry) => evaluate(*entry, self.config, now),
            None => Liveness::Dead,
        }
    }

    /// Liveness of every tracked peer at `now`.
    pub fn poll(&self, now: Timestamp) -> (r: Vec<(DeviceId, Liveness)>)
        requires
            self.wf(),
        ensures
            r@ == poll_of(self.peer_seq(), self.settings(), now),
            r@.len() == self.peers().len(),
            forall|i: int| 0 <= i < r@.len() ==> {
                &&& self.peers().contains_key((#[trigger] r@[i]).0.0)
                &&& r@[i].1 == liveness_at(self.peers()[r@[i].0.0].last_seen, self.settings(), now)
            },
            forall|k: u128| #[trigger] self.peers().contains_key(k) ==> exists|i: int| 0 <= i < r@.len() && r@[i].0.0 == k,
    {
        let mut r: Vec<(DeviceId, Liveness)> = Vec::new();
        let n = self.peer_table.len();
        let mut i: usize = 0;
        while i < n
            invariant
                self.wf(),
                n == self.peer_table.seq().len(),
                i <= n,
                r@ == poll_of(self.peer_table.seq().take(i as int), self.config, now),
            decreases n - i,
        {
            let e = self.peer_table.entry(i);
            let l = evaluate(e.1, self.config, now);
            r.push((DeviceId(e.0), l));
            i = i + 1;
            assert(poll_of(self.peer_table.seq().take(i as int), self.config, now) =~= poll_of(
                self.peer_table.seq().take(i - 1),
                self.config,
                now,
            ).push((DeviceId(e.0), l)));
        }
        assert(self.peer_table.seq().take(n as int) =~= self.peer_table.seq());
        proof {
            let s = self.peer_table.seq();
            self.peer_table.lemma_table();
            crate::table::lemma_map_len(s);
            assert forall|i: int| 0 <= i < r@.len() implies {
                &&& self.peers().contains_key((#[trigger] r@[i]).0.0)
                &&& r@[i].1 == liveness_at(self.peers()[r@[i].0.0].last_seen, self.settings(), now)
            } by {
                lemma_entry_in_map(s, i);
            }
            assert forall|k: u128| #[trigger] self.peers().contains_key(k) implies exists|i: int|
                0 <= i < r@.len() && r@[i].0.0 == k by {
                let j = lemma_key_has_entry(s, k);
                assert(r@[j].0.0 == k);
            }
        }
        r
    }

    /// The identifiers of the peers that are dead at `now`.
    pub fn expired(&self, now: Timestamp) -> (r: Vec<DeviceId>)
        requires
            self.wf(),
        ensures
            r@ == dead_peers(self.peer_seq(), self.settings(), now),
    {
        let polled = self.poll(now);
        let mut r: Vec<DeviceId> = Vec::new();
        let mut i: usize = 0;
        while i < polled.len()
            invariant
                polled@ == poll_of(self.peer_table.seq(), self.config, now),
                i <= polled@.len(),
                r@ == dead_peers(self.peer_table.seq().take(i as int), self.config, now),
            decreases polled@.len() - i,
        {
            let (id, l) = polled[i];
            proof {
                assert(self.peer_table.seq().take(i + 1).drop_last() =~= self.peer_table.seq().take(i as int));
            }
            if l == Liveness::Dead {
                r.push(id);
            }
            i = i + 1;
        }
        assert(self.peer_table.seq().take(polled@.len() as int) =~= self.peer_table.seq());
        r
    }

    pub fn len(&self) -> (n: usize)
        requires
            self.wf(),
        ensures
            n == self.peers().len(),
    {
        self.peer_table.len()
    }

    pub fn is_empty(&self) -> (b: bool)
        requires
            self.wf(),
        ensures
            b == (self.peers().len() == 0),
    {
        self.len() == 0
    }
}

// ---------------------------------------------------------------------------
// Device registry
// ---------------------------------------------------------------------------

/// The views of a sequence of device descriptions.
pub open spec fn views_of(v: Seq<DeviceInfo>) -> Seq<DeviceInfoView> {
    v.map_values(|d: DeviceInfo| d@)
}

/// The views, in table order, of the devices that meet `p`.
pub open spec fn select_devices(s: Seq<(u128, DeviceInfo)>, p: spec_fn(DeviceInfoView) -> bool) -> Seq<DeviceInfoView>
    decreases s.len(),
{
    if s.len() == 0 {
        Seq::empty()
    } else {
        let rest = select_devices(s.drop_last(), p);
        if p(s.last().1@) {
            rest.push(s.last().1@)
        } else {
            rest
        }
    }
}

proof fn lemma_select_step(s: Seq<(u128, DeviceInfo)>, i: int, p: spec_fn(DeviceInfoView) -> bool)
    requires
        0 <= i < s.len(),
    ensures
        select_devices(s.take(i + 1), p) == (if p(s[i].1@) {
            select_devices(s.take(i), p).push(s[i].1@)
        } else {
            select_devices(s.take(i), p)
        }),
{
    assert(s.take(i + 1).drop_last() =~= s.take(i));
    assert(s.take(i + 1).last() == s[i]);
}

/// Book-keeping for every device a node currently knows about.
pub trait DeviceRegistry {
    spec fn wf(&self) -> bool;

    /// The number of known devices.
    spec fn count(&self) -> nat;

    fn register(&mut self, info: DeviceInfo)
        requires
            old(self).wf(),
        ensures
            final(self).wf(),
    ;

    fn unregister(&mut self, id: DeviceId) -> (r: Option<DeviceInfo>)
        requires
            old(self).wf(),
        ensures
            final(self).wf(),
    ;

    fn get(&self, id: DeviceId) -> Option<DeviceInfo>
        requires
            self.wf(),
    ;

    fn heartbeat(&mut self, id: DeviceId, heartbeat: &Heartbeat, now: Timestamp) -> (l: Liveness)
        requires
            old(self).wf(),
        ensures
            final(self).wf(),
    ;

    fn all(&self) -> Vec<DeviceInfo>
        requires
            self.wf(),
    ;

    fn by_role(&self, role: NodeRole) -> Vec<DeviceInfo>
        requires
            self.wf(),
    ;

    fn with_capabilities(&self, required: &CapabilitySet) -> Vec<DeviceInfo>
        requires
            self.wf(),
    ;

    fn expired(&self, now: Timestamp) -> Vec<DeviceId>
        requires
            self.wf(),
    ;

    fn len(&self) -> (n: usize)
        requires
            self.wf(),
        ensures
            n == self.count(),
    ;

    fn is_empty(&self) -> (b: bool)
        requires
            self.wf(),
        ensures
            b == (self.count() == 0),
    {
        self.len() == 0
    }
}

/// In-process [`DeviceRegistry`]: a table of device descriptions plus a
/// heartbeat monitor over the same identifiers.
pub struct InMemoryDeviceRegistry {
    devices: IdTable<DeviceInfo>,
    monitor: HeartbeatMonitor,
}

impl InMemoryDeviceRegistry {
    /// Each known device, by identifier.
    pub closed spec fn devices(&self) -> Map<u128, DeviceInfoView> {
        self.devices@.map_values(|d: DeviceInfo| d@)
    }

    /// The known devices in the order they were first registered.
    pub closed spec fn device_seq(&self) -> Seq<(u128, DeviceInfo)> {
        self.devices.seq()
    }

    /// The monitor that tracks the devices' heartbeats.
    pub closed spec fn heartbeats(&self) -> HeartbeatMonitor {
        self.monitor
    }

    pub fn new(config: HeartbeatConfig) -> (r: Self)
        ensures
            r.wf(),
            r.devices() == Map::<u128, DeviceInfoView>::empty(),
            r.heartbeats().settings() == config,
            r.heartbeats().peers() == Map::<u128, PeerRecord>::empty(),
    {
        let r = InMemoryDeviceRegistry { devices: IdTable::new(), monitor: HeartbeatMonitor::new(config) };
        assert(r.devices() =~= Map::<u128, DeviceInfoView>::empty());
        r
    }

    pub fn monitor(&self) -> (m: &HeartbeatMonitor)
        ensures
            *m == self.heartbeats(),
    {
        &self.monitor
    }
}

impl Default for InMemoryDeviceRegistry {
    fn default() -> (r: Self)
        ensures
            r.wf(),
            r.devices() == Map::<u128, DeviceInfoView>::empty(),
            r.heartbeats().settings() == (HeartbeatConfig { interval_ms: 1000, timeout_ms: 3000, max_missed: 3 }),
            r.heartbeats().peers() == Map::<u128, PeerRecord>::empty(),
    {
        InMemoryDeviceRegistry::new(HeartbeatConfig::default())
    }
}

impl DeviceRegistry for InMemoryDeviceRegistry {
    /// Both tables are well formed, every entry is filed under its own
    /// identifier, and every known device is tracked by the monitor with the
    /// same last-seen time as its description.
    closed spec fn wf(&self) -> bool {
        &&& self.devices.wf()
        &&& self.monitor.wf()
        &&& forall|k: u128| #[trigger] self.devices@.contains_key(k) ==> {
            &&& self.devices@[k].id.0 == k
            &&& self.monitor.peers().contains_key(k)
            &&& self.monitor.peers()[k].last_seen == self.devices@[k].last_seen
        }
    }

    open spec fn count(&self) -> nat {
        self.devices().len()
    }

    fn register(&mut self, info: DeviceInfo)
        ensures
            final(self).devices() == old(self).devices().insert(info.id.0, info@),
            final(self).heartbeats().settings() == old(self).heartbeats().settings(),
            final(self).heartbeats().peers() == old(self).heartbeats().peers().insert(
                info.id.0,
                PeerRecord { last_seen: info.last_seen, last_seq: 0, missed: 0 },
            ),
    {
        self.monitor.register(info.id, info.last_seen);
        let ghost view = info@;
        self.devices.insert(info.id.0, info);
        assert(self.devices() =~= old(self).devices().insert(view.id.0, view));
    }

    fn unregister(&mut self, id: DeviceId) -> (r: Option<DeviceInfo>)
        ensures
            final(self).devices() == old(self).devices().remove(id.0),
            final(self).heartbeats().settings() == old(self).heartbeats().settings(),
            final(self).heartbeats().peers() == old(self).heartbeats().peers().remove(id.0),
            r matches Some(info) ==> old(self).devices().contains_key(id.0) && info@ == old(self).devices()[id.0],
            r is None <==> !old(self).devices().contains_key(id.0),
    {
        self.monitor.remove(id);
        let r = self.devices.remove(id.0);
        assert(self.devices() =~= old(self).devices().remove(id.0));
        r
    }

    fn get(&self, id: DeviceId) -> (r: Option<DeviceInfo>)
        ensures
            r matches Some(info) ==> self.devices().contains_key(id.0) && info@ == self.devices()[id.0],
            r is None <==> !self.devices().contains_key(id.0),
    {
        match self.devices.get(id.0) {
            Some(info) => Some(info.clone()),
            None => None,
        }
    }

    /// Records a heartbeat from `id`: the monitor tracks it from then on, and
    /// a known device is marked as last seen at `now`.
    fn heartbeat(&mut self, id: DeviceId, heartbeat: &Heartbeat, now: Timestamp) -> (l: Liveness)
        ensures
            final(self).devices() == (if old(self).devices().contains_key(id.0) {
                old(self).devices().insert(id.0, DeviceInfoView { last_seen: now, ..old(self).devices()[id.0] })
            } else {
                old(self).devices()
            }),
            final(self).heartbeats().settings() == old(self).heartbeats().settings(),
            final(self).heartbeats().peers() == old(self).heartbeats().peers().insert(
                id.0,
                PeerRecord { last_seen: now, last_seq: heartbeat.seq, missed: 0 },
            ),
            l == Liveness::Alive,
    {
        let l = self.monitor.observe(id, heartbeat, now);
        let updated = match self.devices.get(id.0) {
            Some(info) => {
                let mut u = info.clone();
                u.last_seen = now;
                Some(u)
            },
            None => None,
        };
        match updated {
            Some(u) => {
                self.devices.insert(id.0, u);
                assert(self.devices() =~= old(self).devices().insert(
                    id.0,
                    DeviceInfoView { last_seen: now, ..old(self).devices()[id.0] },
                ));
            },
            None => {},
        }
        l
    }

    fn all(&self) -> (r: Vec<DeviceInfo>)
        ensures
            views_of(r@) == select_devices(self.device_seq(), |d: DeviceInfoView| true),
    {
        let mut r: Vec<DeviceInfo> = Vec::new();
        let n = self.devices.len();
        let mut i: usize = 0;
        while i < n
            invariant
                n == self.devices.seq().len(),
                i <= n,
                views_of(r@) == select_devices(self.devices.seq().take(i as int), |d: DeviceInfoView| true),
            decreases n - i,
        {
            let e = self.devices.entry(i);
            proof {
                lemma_select_step(self.devices.seq(), i as int, |d: DeviceInfoView| true);
            }
            let ghost before = r@;
            r.push(e.1.clone());
            assert(views_of(r@) =~= views_of(before).push(e.1@));
            i = i + 1;
        }
        assert(self.devices.seq().take(n as int) =~= self.devices.seq());
        r
    }

    fn by_role(&self, role: NodeRole) -> (r: Vec<DeviceInfo>)
        ensures
            views_of(r@) == select_devices(self.device_seq(), |d: DeviceInfoView| d.role == role),
    {
        let mut r: Vec<DeviceInfo> = Vec::new();
        let n = self.devices.len();
        let mut i: usize = 0;
        while i < n
            invariant
                n == self.devices.seq().len(),
                i <= n,
                views_of(r@) == select_devices(self.devices.seq().take(i as int), |d: DeviceInfoView| d.role == role),
            decreases n - i,
        {
            let e = self.devices.entry(i);
            proof {
                lemma_select_step(self.devices.seq(), i as int, |d: DeviceInfoView| d.role == role);
            }
            if e.1.role == role {
                let ghost before = r@;
                r.push(e.1.clone());
                assert(views_of(r@) =~= views_of(before).push(e.1@));
            }
            i = i + 1;
        }
        assert(self.devices.seq().take(n as int) =~= self.devices.seq());
        r
    }

    fn with_capabilities(&self, required: &CapabilitySet) -> (r: Vec<DeviceInfo>)
        ensures
            views_of(r@) == select_devices(
                self.device_seq(),
                |d: DeviceInfoView| required@.subset_of(d.capabilities),
            ),
    {
        let mut r: Vec<DeviceInfo> = Vec::new();
        let n = self.devices.len();
        let mut i: usize = 0;
        while i < n
            invariant
                n == self.devices.seq().len(),
                i <= n,
                views_of(r@) == select_devices(
                    self.devices.seq().take(i as int),
                    |d: DeviceInfoView| required@.subset_of(d.capabilities),
                ),
            decreases n - i,
        {
            let e = self.devices.entry(i);
            proof {
                lemma_select_step(
                    self.devices.seq(),
                    i as int,
                    |d: DeviceInfoView| required@.subset_of(d.capabilities),
                );
            }
            if e.1.supports(required) {
                let ghost before = r@;
                r.push(e.1.clone());
                assert(views_of(r@) =~= views_of(before).push(e.1@));
            }
            i = i + 1;
        }
        assert(self.devices.seq().take(n as int) =~= self.devices.seq());
        r
    }

    fn expired(&self, now: Timestamp) -> (r: Vec<DeviceId>)
        ensures
            r@ == dead_peers(self.heartbeats().peer_seq(), self.heartbeats().settings(), now),
    {
        self.monitor.expired(now)
    }

    fn len(&self) -> (n: usize)
        ensures
            n == self.devices().len(),
    {
        assert(self.devices().dom() =~= self.devices@.dom());
        self.devices.len()
    }
}

// ---------------------------------------------------------------------------
// Transport settings
// ---------------------------------------------------------------------------

/// TCP tuning shared by clients and listeners.
#[derive(Debug, Clone, Copy, PartialEq, Eq, Structural)]
pub struct TcpConfig {
    pub connect_timeout_ms: u64,
    pub read_timeout_ms: u64,
    pub write_timeout_ms: u64,
    pub nodelay: bool,
}

impl Default for TcpConfig {
    fn default() -> (c: Self)
        ensures
            c.connect_timeout_ms == 5000,
            c.read_timeout_ms == 10000,
            c.write_timeout_ms == 10000,
            c.nodelay,
    {
        TcpConfig { connect_timeout_ms: 5_000, read_timeout_ms: 10_000, write_timeout_ms: 10_000, nodelay: true }
    }
}

// ---------------------------------------------------------------------------
// Laws
// ---------------------------------------------------------------------------

/// How far a liveness verdict has degraded: alive, then suspect, then dead.
pub open spec fn severity(l: Liveness) -> int {
    match l {
        Liveness::Alive => 0,
        Liveness::Suspect => 1,
        Liveness::Dead => 2,
    }
}

/// As time passes without a heartbeat, a peer's liveness only degrades.
pub proof fn law_liveness_degrades(last_seen: Timestamp, config: HeartbeatConfig, earlier: Timestamp, later: Timestamp)
    requires
        earlier.0 <= later.0,
    ensures
        severity(liveness_at(last_seen, config, earlier)) <= severity(liveness_at(last_seen, config, later)),
{
}

/// A peer is alive at the moment it is seen.
pub proof fn law_alive_when_seen(last_seen: Timestamp, config: HeartbeatConfig)
    ensures
        liveness_at(last_seen, config, last_seen) == Liveness::Alive,
{
}

proof fn lemma_dead_peers_members(s: Seq<(u128, PeerRecord)>, config: HeartbeatConfig, now: Timestamp, id: DeviceId)
    requires
        keys_of(s).no_duplicates(),
    ensures
        dead_peers(s, config, now).contains(id) <==> (map_of(s).contains_key(id.0) && liveness_at(
            map_of(s)[id.0].last_seen,
            config,
            now,
        ) == Liveness::Dead),
    decreases s.len(),
{
    if s.len() > 0 {
        let t = s.drop_last();
        assert(keys_of(t) =~= keys_of(s).drop_last());
        assert(keys_of(t).no_duplicates()) by {
            assert forall|a: int, b: int| 0 <= a < b < keys_of(t).len() implies keys_of(t)[a] != keys_of(t)[b] by {
                assert(keys_of(t)[a] == keys_of(s)[a] && keys_of(t)[b] == keys_of(s)[b]);
            }
        }
        lemma_dead_peers_members(t, config, now, id);
        let last = s.len() - 1;
        let rest = dead_peers(t, config, now);
        let x = DeviceId(s[last].0);
        let last_dead = liveness_at(s[last].1.last_seen, config, now) == Liveness::Dead;
        assert(dead_peers(s, config, now) == (if last_dead { rest.push(x) } else { rest }));
        lemma_entry_in_map(s, last);
        assert(keys_of(s)[last] == s[last].0);
        if dead_peers(s, config, now).contains(id) {
            if rest.contains(id) {
                let j = lemma_key_has_entry(t, id.0);
                lemma_entry_in_map(t, j);
                assert(s[j] == t[j]);
                lemma_entry_in_map(s, j);
            } else {
                assert(last_dead);
                let i = dead_peers(s, config, now).index_of(id);
                assert(i == rest.len());
                assert(id == x);
            }
        }
        if map_of(s).contains_key(id.0) && liveness_at(map_of(s)[id.0].last_seen, config, now) == Liveness::Dead {
            let j = lemma_key_has_entry(s, id.0);
            lemma_entry_in_map(s, j);
            if j == last {
                assert(id == x);
                assert(dead_peers(s, config, now)[rest.len() as int] == id);
            } else {
                assert(t[j] == s[j]);
                lemma_entry_in_map(t, j);
                assert(rest.contains(id));
                let i = rest.index_of(id);
                assert(dead_peers(s, config, now)[i] == id);
            }
        }
    }
}

/// `expired` names exactly the tracked peers that `liveness` reports dead.
pub proof fn law_expired_are_dead(m: &HeartbeatMonitor, id: DeviceId, now: Timestamp)
    requires
        m.wf(),
    ensures
        dead_peers(m.peer_seq(), m.settings(), now).contains(id) <==> (m.peers().contains_key(id.0)
            && liveness_at(m.peers()[id.0].last_seen, m.settings(), now) == Liveness::Dead),
{
    m.peer_table.lemma_table();
    lemma_dead_peers_members(m.peer_table.seq(), m.config, now, id);
}

/// The registry's monitor is well formed, and every registered device is
/// tracked by it, filed under its own identifier, with the same last-seen time
/// as its description.
pub proof fn law_registered_devices_are_monitored(r: &InMemoryDeviceRegistry, k: u128)
    requires
        r.wf(),
    ensures
        r.heartbeats().wf(),
        r.devices().contains_key(k) ==> r.devices()[k].id.0 == k,
        r.devices().contains_key(k) ==> r.heartbeats().peers().contains_key(k),
        r.devices().contains_key(k) ==> r.heartbeats().peers()[k].last_seen == r.devices()[k].last_seen,
{
}

proof fn lemma_select_members(s: Seq<(u128, DeviceInfo)>, p: spec_fn(DeviceInfoView) -> bool, v: DeviceInfoView)
    requires
        keys_of(s).no_duplicates(),
    ensures
        select_devices(s, p).contains(v) <==> exists|k: u128| #[trigger] map_of(s).contains_key(k) && p(map_of(s)[k]@)
            && map_of(s)[k]@ == v,
    decreases s.len(),
{
    if s.len() > 0 {
        let t = s.drop_last();
        let last = s.len() - 1;
        assert(keys_of(t) =~= keys_of(s).drop_last());
        assert(keys_of(t).no_duplicates()) by {
            assert forall|a: int, b: int| 0 <= a < b < keys_of(t).len() implies keys_of(t)[a] != keys_of(t)[b] by {
                assert(keys_of(t)[a] == keys_of(s)[a] && keys_of(t)[b] == keys_of(s)[b]);
            }
        }
        lemma_select_members(t, p, v);
        lemma_entry_in_map(s, last);
        if select_devices(s, p).contains(v) {
            if select_devices(t, p).contains(v) {
                let k = choose|k: u128| #[trigger] map_of(t).contains_key(k) && p(map_of(t)[k]@) && map_of(t)[k]@ == v;
                let j = lemma_key_has_entry(t, k);
                lemma_entry_in_map(t, j);
                assert(s[j] == t[j]);
                lemma_entry_in_map(s, j);
                assert(map_of(s).contains_key(k));
            } else {
                assert(map_of(s).contains_key(s[last].0));
            }
        }
        if exists|k: u128| #[trigger] map_of(s).contains_key(k) && p(map_of(s)[k]@) && map_of(s)[k]@ == v {
            let k = choose|k: u128| #[trigger] map_of(s).contains_key(k) && p(map_of(s)[k]@) && map_of(s)[k]@ == v;
            let j = lemma_key_has_entry(s, k);
            lemma_entry_in_map(s, j);
            if j == last {
                assert(select_devices(s, p) == select_devices(t, p).push(s[last].1@));
                assert(select_devices(s, p).last() == v);
            } else {
                assert(t[j] == s[j]);
                lemma_entry_in_map(t, j);
                assert(map_of(t).contains_key(k));
                assert(select_devices(t, p).contains(v));
                let i = select_devices(t, p).index_of(v);
                if p(s[last].1@) {
                    assert(select_devices(s, p)[i] == v);
                }
            }
        }
    }
}

proof fn lemma_select_distinct(s: Seq<(u128, DeviceInfo)>, p: spec_fn(DeviceInfoView) -> bool)
    requires
        keys_of(s).no_duplicates(),
        forall|i: int| 0 <= i < s.len() ==> (#[trigger] s[i]).1.id.0 == s[i].0,
    ensures
        select_devices(s, p).no_duplicates(),
        forall|i: int| 0 <= i < select_devices(s, p).len() ==> keys_of(s).contains(
            #[trigger] select_devices(s, p)[i].id.0,
        ),
    decreases s.len(),
{
    if s.len() > 0 {
        let t = s.drop_last();
        let last = s.len() - 1;
        assert(keys_of(t) =~= keys_of(s).drop_last());
        assert(keys_of(t).no_duplicates()) by {
            assert forall|a: int, b: int| 0 <= a < b < keys_of(t).len() implies keys_of(t)[a] != keys_of(t)[b] by {
                assert(keys_of(t)[a] == keys_of(s)[a] && keys_of(t)[b] == keys_of(s)[b]);
            }
        }
        assert forall|i: int| 0 <= i < t.len() implies (#[trigger] t[i]).1.id.0 == t[i].0 by {
            assert(t[i] == s[i]);
        }
        lemma_select_distinct(t, p);
        let rest = select_devices(t, p);
        assert forall|i: int| 0 <= i < rest.len() implies keys_of(s).contains(#[trigger] rest[i].id.0) by {
            let j = keys_of(t).index_of(rest[i].id.0);
            assert(keys_of(s)[j] == keys_of(t)[j]);
        }
        if p(s[last].1@) {
            let sel = rest.push(s[last].1@);
            assert(select_devices(s, p) == sel);
            assert(keys_of(s)[last] == s[last].0);
            assert forall|a: int, b: int| 0 <= a < b < sel.len() implies sel[a] != sel[b] by {
                if b == rest.len() {
                    let j = keys_of(t).index_of(rest[a].id.0);
                    assert(keys_of(s)[j] == rest[a].id.0);
                    assert(j != last);
                }
            }
            assert forall|i: int| 0 <= i < sel.len() implies keys_of(s).contains(#[trigger] sel[i].id.0) by {
                if i == rest.len() {
                    assert(keys_of(s)[last] == sel[i].id.0);
                }
            }
        }
    }
}

/// A selection of the registry (`all`, `by_role`, `with_capabilities`) holds
/// exactly the views of the registered devices that meet its condition, each
/// once.
pub proof fn law_selection_is_exact(r: &InMemoryDeviceRegistry, p: spec_fn(DeviceInfoView) -> bool, v: DeviceInfoView)
    requires
        r.wf(),
    ensures
        select_devices(r.device_seq(), p).contains(v) <==> exists|k: u128| #[trigger] r.devices().contains_key(k)
            && p(r.devices()[k]) && r.devices()[k] == v,
        select_devices(r.device_seq(), p).no_duplicates(),
{
    r.devices.lemma_table();
    lemma_select_members(r.devices.seq(), p, v);
    let s = r.devices.seq();
    assert forall|i: int| 0 <= i < s.len() implies (#[trigger] s[i]).1.id.0 == s[i].0 by {
        lemma_entry_in_map(s, i);
    }
    lemma_select_distinct(s, p);
    if select_devices(r.device_seq(), p).contains(v) {
        let k = choose|k: u128| #[trigger] r.devices@.contains_key(k) && p(r.devices@[k]@) && r.devices@[k]@ == v;
        assert(r.devices().contains_key(k));
    }
    if exists|k: u128| #[trigger] r.devices().contains_key(k) && p(r.devices()[k]) && r.devices()[k] == v {
        let k = choose|k: u128| #[trigger] r.devices().contains_key(k) && p(r.devices()[k]) && r.devices()[k] == v;
        assert(r.devices@.contains_key(k));
    }
}


/// With `e` the milliseconds since the peer was last seen (none when the
/// clock reads earlier than that): the peer is alive while `e` is at most
/// `timeout_ms`, suspect while `e` is beyond that but at most
/// `timeout_ms * max_missed`, and dead once `e` exceeds both.  A product too
/// large for 64 bits is never exceeded, so such a peer is never dead.
pub proof fn law_liveness_thresholds(last_seen: Timestamp, config: HeartbeatConfig, now: Timestamp)
    ensures
        ({
            let e: int = if now.0 >= last_seen.0 { now.0 - last_seen.0 } else { 0 };
            let dead_after: int = config.timeout_ms * config.max_missed;
            &&& (liveness_at(last_seen, config, now) == Liveness::Alive <==> e <= config.timeout_ms)
            &&& (liveness_at(last_seen, config, now) == Liveness::Suspect <==> config.timeout_ms < e
                <= dead_after)
            &&& (liveness_at(last_seen, config, now) == Liveness::Dead <==> (config.timeout_ms < e && dead_after
                < e))
        }),
{
    let dead_after: int = config.timeout_ms * config.max_missed;
    assert(dead_after >= 0) by (nonlinear_arith)
        requires
            config.timeout_ms >= 0,
            config.max_missed >= 0,
            dead_after == config.timeout_ms * config.max_missed,
    ;
}

} // verus!
