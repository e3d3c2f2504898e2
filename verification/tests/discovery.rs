use syncer::discovery::{DiscoveryProvider, DiscoveryRegistry};
use syncer::model::{DeviceId, PeerDevice};

#[test]
fn stores_peers_only_when_running() {
    let mut discovery = DiscoveryRegistry::default();
    discovery.upsert_device(PeerDevice { id: DeviceId("dev-0".into()), display_name: "Early".into() });
    assert!(discovery.discovered_devices().is_empty());
    discovery.start();
    assert!(discovery.is_running());
    discovery.upsert_device(PeerDevice {
        id: DeviceId("dev-1".into()),
        display_name: "Laptop".into(),
    });
    assert_eq!(discovery.discovered_devices().len(), 1);
    discovery.stop();
    assert!(!discovery.is_running());
    assert_eq!(discovery.device_count(), 1);
}

#[test]
fn announcements_are_kept_and_withdrawn() {
    let mut discovery = DiscoveryRegistry::new();
    discovery.record_resolved(PeerDevice { id: DeviceId("svc".into()), display_name: "host.local.".into() });
    discovery.record_resolved(PeerDevice { id: DeviceId("svc".into()), display_name: "other.local.".into() });
    let devices = discovery.discovered_devices();
    assert_eq!(devices.len(), 1);
    assert_eq!(devices[0].display_name, "other.local.");
    discovery.record_removed(&DeviceId("svc".into()));
    assert_eq!(discovery.device_count(), 0);
}
