use disco_foundation::prelude::{
    Capability, CapabilitySet, DeviceId, DeviceInfo, DeviceRegistry, Heartbeat, InMemoryDeviceRegistry,
    Liveness, NodeRole, SocketAddress, Timestamp,
};

pub struct GpuCapability;

impl Capability for GpuCapability {
    const NAME: &'static str = "gpu";
    const VERSION: u32 = 2;
}

#[test]
fn capability_set_matching() {
    let mut available = CapabilitySet::new();
    available.insert(GpuCapability);

    let mut required = CapabilitySet::new();
    required.insert_id("gpu");

    assert!(available.satisfies(&required));
    assert!(available.contains::<GpuCapability>());
}

#[test]
fn device_registry_tracks_heartbeats() {
    let mut registry = InMemoryDeviceRegistry::default();
    let id = DeviceId::new();
    let addr = SocketAddress::V4 { ip4: u32::from_be_bytes([127, 0, 0, 1]), port: 9000 };
    registry.register(DeviceInfo::new(id, NodeRole::Worker, addr));

    let heartbeat = Heartbeat::new(id, 1, Timestamp::from_millis(100));
    let liveness = registry.heartbeat(id, &heartbeat, Timestamp::from_millis(100));
    assert_eq!(liveness, Liveness::Alive);
    assert_eq!(registry.by_role(NodeRole::Worker).len(), 1);
    assert!(
        registry
            .expired(Timestamp::from_millis(100_000))
            .contains(&id)
    );
}
