use disco_foundation::addr::SocketAddress;
use disco_foundation::capability::CapabilitySet;
use disco_foundation::clock::Timestamp;
use disco_foundation::device::{
    Device, DeviceId, DeviceInfo, DeviceRegistry, DeviceState, Heartbeat, HeartbeatConfig, HeartbeatMonitor,
    InMemoryDeviceRegistry, Liveness, NodeRole, TcpConfig,
};

fn v4(octets: [u8; 4], port: u16) -> SocketAddress {
    SocketAddress::V4 { ip4: u32::from_be_bytes(octets), port }
}

fn config() -> HeartbeatConfig {
    HeartbeatConfig { interval_ms: 100, timeout_ms: 1_000, max_missed: 3 }
}

#[test]
fn fresh_ids_are_version_seven() {
    let id = DeviceId::new();
    assert_eq!((id.as_u128() >> 76) & 0xf, 7);
    assert_eq!((id.as_u128() >> 62) & 0x3, 2);
    assert_ne!(DeviceId::new(), DeviceId::new());
}

#[test]
fn roles() {
    assert!(NodeRole::Leader.is_leader());
    assert!(!NodeRole::Leader.is_worker());
    assert!(NodeRole::Worker.is_worker());
    assert!(!NodeRole::Worker.is_leader());
}

#[test]
fn defaults() {
    let c = HeartbeatConfig::default();
    assert_eq!((c.interval_ms, c.timeout_ms, c.max_missed), (1_000, 3_000, 3));
    let t = TcpConfig::default();
    assert_eq!((t.connect_timeout_ms, t.read_timeout_ms, t.write_timeout_ms, t.nodelay), (5_000, 10_000, 10_000, true));
}

#[test]
fn new_device_info_is_connecting() {
    let info = DeviceInfo::new(DeviceId(1), NodeRole::Leader, v4([10, 0, 0, 1], 80));
    assert_eq!(info.id(), DeviceId(1));
    assert_eq!(info.role(), NodeRole::Leader);
    assert_eq!(info.state(), DeviceState::Connecting);
    assert_eq!(info.last_seen, Timestamp::zero());
    assert!(info.metadata.is_empty());
    assert!(info.supports(&CapabilitySet::new()));
    let mut gpu = CapabilitySet::new();
    gpu.insert_id("gpu");
    assert!(!info.supports(&gpu));
}

#[test]
fn liveness_thresholds() {
    let mut m = HeartbeatMonitor::new(config());
    let id = DeviceId(7);
    m.register(id, Timestamp::from_millis(1_000));
    assert_eq!(m.liveness(id, Timestamp::from_millis(2_000)), Liveness::Alive);
    assert_eq!(m.liveness(id, Timestamp::from_millis(2_001)), Liveness::Suspect);
    assert_eq!(m.liveness(id, Timestamp::from_millis(4_000)), Liveness::Suspect);
    assert_eq!(m.liveness(id, Timestamp::from_millis(4_001)), Liveness::Dead);
    assert_eq!(m.liveness(id, Timestamp::from_millis(10)), Liveness::Alive);
    assert_eq!(m.liveness(DeviceId(8), Timestamp::from_millis(1_000)), Liveness::Dead);
}

#[test]
fn saturating_suspect_window() {
    let mut m = HeartbeatMonitor::new(HeartbeatConfig { interval_ms: 1, timeout_ms: u64::MAX / 2, max_missed: 4 });
    m.register(DeviceId(1), Timestamp::from_millis(0));
    assert_eq!(m.liveness(DeviceId(1), Timestamp::from_millis(u64::MAX)), Liveness::Suspect);
}

#[test]
fn observe_revives_and_poll_lists_all() {
    let mut m = HeartbeatMonitor::new(config());
    m.register(DeviceId(1), Timestamp::from_millis(0));
    m.register(DeviceId(2), Timestamp::from_millis(0));
    let hb = Heartbeat::new(DeviceId(2), 4, Timestamp::from_millis(9_000));
    assert_eq!(m.observe(DeviceId(2), &hb, Timestamp::from_millis(9_500)), Liveness::Alive);
    let polled = m.poll(Timestamp::from_millis(10_000));
    assert_eq!(polled, vec![(DeviceId(1), Liveness::Dead), (DeviceId(2), Liveness::Alive)]);
    assert_eq!(m.expired(Timestamp::from_millis(10_000)), vec![DeviceId(1)]);
    assert_eq!(m.len(), 2);
    assert!(m.remove(DeviceId(1)));
    assert!(!m.remove(DeviceId(1)));
    assert_eq!(m.len(), 1);
    assert!(!m.is_empty());
    assert_eq!(m.config(), config());
}

#[test]
fn registry_register_get_unregister() {
    let mut r = InMemoryDeviceRegistry::new(config());
    assert!(r.is_empty());
    let mut info = DeviceInfo::new(DeviceId(3), NodeRole::Worker, v4([10, 0, 0, 1], 1));
    info.capabilities.insert_id("gpu");
    r.register(info);
    r.register(DeviceInfo::new(DeviceId(4), NodeRole::Leader, v4([10, 0, 0, 2], 2)));
    assert_eq!(r.len(), 2);
    assert_eq!(r.get(DeviceId(3)).unwrap().addr, v4([10, 0, 0, 1], 1));
    assert!(r.get(DeviceId(5)).is_none());
    assert_eq!(r.all().len(), 2);
    assert_eq!(r.by_role(NodeRole::Leader)[0].id, DeviceId(4));
    let mut gpu = CapabilitySet::new();
    gpu.insert_id("gpu");
    let capable = r.with_capabilities(&gpu);
    assert_eq!(capable.len(), 1);
    assert_eq!(capable[0].id, DeviceId(3));
    let removed = r.unregister(DeviceId(3)).unwrap();
    assert_eq!(removed.id, DeviceId(3));
    assert!(r.unregister(DeviceId(3)).is_none());
    assert_eq!(r.len(), 1);
    assert_eq!(r.monitor().len(), 1);
}

#[test]
fn registry_heartbeat_updates_last_seen() {
    let mut r = InMemoryDeviceRegistry::new(config());
    r.register(DeviceInfo::new(DeviceId(3), NodeRole::Worker, v4([10, 0, 0, 1], 1)));
    let hb = Heartbeat::new(DeviceId(3), 1, Timestamp::from_millis(500));
    assert_eq!(r.heartbeat(DeviceId(3), &hb, Timestamp::from_millis(600)), Liveness::Alive);
    assert_eq!(r.get(DeviceId(3)).unwrap().last_seen, Timestamp::from_millis(600));
    assert_eq!(r.monitor().liveness(DeviceId(3), Timestamp::from_millis(1_600)), Liveness::Alive);
    assert!(r.expired(Timestamp::from_millis(1_600)).is_empty());
    assert_eq!(r.expired(Timestamp::from_millis(3_601)), vec![DeviceId(3)]);
}

#[test]
fn satisfies_is_reflexive_and_transitive() {
    let mut a = CapabilitySet::new();
    a.insert_id("gpu");
    a.insert_id("disk");
    a.insert_id("gpu");
    let mut b = CapabilitySet::new();
    b.insert_id("disk");
    b.insert_id("gpu");
    let mut c = CapabilitySet::new();
    c.insert_id("disk");
    assert_eq!(a.names().len(), 2);
    assert!(a.satisfies(&a));
    assert!(a.satisfies(&b) && b.satisfies(&c) && a.satisfies(&c));
    assert!(!c.satisfies(&b));
    assert!(a.contains_id("disk"));
    assert!(!a.contains_id("tpu"));
}

#[test]
fn registry_get_returns_an_equal_copy() {
    let mut r = InMemoryDeviceRegistry::new(config());
    let mut info = DeviceInfo::new(DeviceId(11), NodeRole::Worker, SocketAddress::V6 { ip6: 1, port: 9, flowinfo: 0, scope_id: 3 });
    info.metadata.insert("zone".to_string(), "eu".to_string());
    let expected = info.clone();
    r.register(info);
    assert_eq!(r.get(DeviceId(11)).unwrap(), expected);
    assert_eq!(r.all(), vec![expected]);
}
