use sendme_core::device::NearbyDevice;
use sendme_core::registry::{DeviceRegistry, DiscoveryEvent};

fn discovered(id: &str, name: Option<&str>, addrs: &[&str]) -> DiscoveryEvent {
    DiscoveryEvent::Discovered {
        node_id: id.to_string(),
        name: name.map(|n| n.to_string()),
        addresses: addrs.iter().map(|a| a.to_string()).collect(),
    }
}

fn assert_device(
    d: &NearbyDevice,
    id: &str,
    name: Option<&str>,
    addrs: &[&str],
    last_seen: i64,
    available: bool,
) {
    assert_eq!(d.node_id, id);
    assert_eq!(d.name.as_deref(), name);
    let got: Vec<&str> = d.addresses.iter().map(|a| a.as_str()).collect();
    assert_eq!(got, addrs);
    assert_eq!(d.last_seen, last_seen);
    assert_eq!(d.available, available);
}

#[test]
fn upsert_inserts_then_replaces() {
    let mut reg = DeviceRegistry::new();
    reg.upsert(
        "peer-1".to_string(),
        Some("alpha".to_string()),
        vec!["10.0.0.1:4433".to_string()],
        100,
    );
    reg.upsert(
        "peer-1".to_string(),
        Some("beta".to_string()),
        vec!["10.0.0.2:4433".to_string(), "10.0.0.3:4433".to_string()],
        200,
    );
    let devs = reg.devices();
    assert_eq!(devs.len(), 1);
    assert_device(
        &devs[0],
        "peer-1",
        Some("beta"),
        &["10.0.0.2:4433", "10.0.0.3:4433"],
        200,
        true,
    );
}

#[test]
fn upsert_replaces_name_with_none() {
    let mut reg = DeviceRegistry::new();
    reg.upsert("peer-1".to_string(), Some("alpha".to_string()), vec![], 100);
    reg.upsert("peer-1".to_string(), None, vec![], 150);
    let devs = reg.devices();
    assert_eq!(devs.len(), 1);
    assert_device(&devs[0], "peer-1", None, &[], 150, true);
}

#[test]
fn upsert_keeps_insertion_order() {
    let mut reg = DeviceRegistry::new();
    reg.upsert("peer-1".to_string(), None, vec![], 10);
    reg.upsert("peer-2".to_string(), None, vec![], 20);
    reg.upsert("peer-3".to_string(), None, vec![], 30);
    reg.upsert("peer-1".to_string(), Some("renamed".to_string()), vec![], 40);
    let ids: Vec<&str> = reg.devices().iter().map(|d| d.node_id.as_str()).collect();
    assert_eq!(ids, ["peer-1", "peer-2", "peer-3"]);
    assert_eq!(reg.devices()[0].last_seen, 40);
}

#[test]
fn expire_unknown_id_is_ignored() {
    let mut reg = DeviceRegistry::new();
    reg.upsert("peer-1".to_string(), None, vec!["addr".to_string()], 10);
    reg.expire(&"peer-9".to_string());
    let devs = reg.devices();
    assert_eq!(devs.len(), 1);
    assert_device(&devs[0], "peer-1", None, &["addr"], 10, true);
}

#[test]
fn expire_on_empty_registry_is_ignored() {
    let mut reg = DeviceRegistry::new();
    reg.expire(&"peer-1".to_string());
    assert_eq!(reg.devices().len(), 0);
}

#[test]
fn expire_marks_unavailable_keeps_fields() {
    let mut reg = DeviceRegistry::new();
    reg.upsert(
        "peer-1".to_string(),
        Some("alpha".to_string()),
        vec!["10.0.0.1:4433".to_string()],
        100,
    );
    reg.upsert("peer-2".to_string(), None, vec![], 110);
    reg.expire(&"peer-1".to_string());
    let devs = reg.devices();
    assert_eq!(devs.len(), 2);
    assert_device(&devs[0], "peer-1", Some("alpha"), &["10.0.0.1:4433"], 100, false);
    assert_device(&devs[1], "peer-2", None, &[], 110, true);
}

#[test]
fn rediscovery_after_expiry_marks_available_again() {
    let mut reg = DeviceRegistry::new();
    reg.upsert("peer-1".to_string(), None, vec![], 100);
    reg.expire(&"peer-1".to_string());
    assert!(!reg.devices()[0].available);
    reg.upsert("peer-1".to_string(), None, vec![], 300);
    let devs = reg.devices();
    assert_eq!(devs.len(), 1);
    assert!(devs[0].available);
    assert_eq!(devs[0].last_seen, 300);
}

#[test]
fn apply_event_folds_discovered_and_expired() {
    let mut reg = DeviceRegistry::new();
    reg.apply_event(discovered("peer-1", Some("alpha"), &["a1"]), 100);
    reg.apply_event(discovered("peer-2", None, &[]), 110);
    reg.apply_event(
        DiscoveryEvent::Expired { node_id: "peer-1".to_string() },
        0,
    );
    let devs = reg.devices();
    assert_eq!(devs.len(), 2);
    assert_device(&devs[0], "peer-1", Some("alpha"), &["a1"], 100, false);
    assert_device(&devs[1], "peer-2", None, &[], 110, true);
}

#[test]
fn recent_devices_filters_by_availability_and_window() {
    let mut reg = DeviceRegistry::new();
    // Last seen 5 seconds ago: inside a 60 second window.
    reg.upsert("fresh".to_string(), None, vec![], 995);
    // Last seen 120 seconds ago: outside the window.
    reg.upsert("stale".to_string(), None, vec![], 880);
    // Recent but expired: never returned, regardless of recency.
    reg.upsert("gone".to_string(), None, vec![], 999);
    reg.expire(&"gone".to_string());
    let recent = reg.recent_devices(1000, 60);
    let ids: Vec<&str> = recent.iter().map(|d| d.node_id.as_str()).collect();
    assert_eq!(ids, ["fresh"]);
}

#[test]
fn recent_devices_window_boundary_is_strict() {
    let mut reg = DeviceRegistry::new();
    // Exactly 60 seconds ago: not strictly within a 60 second window.
    reg.upsert("edge".to_string(), None, vec![], 940);
    // 59 seconds ago: within.
    reg.upsert("in".to_string(), None, vec![], 941);
    let ids: Vec<String> = reg
        .recent_devices(1000, 60)
        .into_iter()
        .map(|d| d.node_id)
        .collect();
    assert_eq!(ids, ["in"]);
}

#[test]
fn recent_devices_preserves_registry_order() {
    let mut reg = DeviceRegistry::new();
    reg.upsert("a".to_string(), None, vec![], 990);
    reg.upsert("b".to_string(), None, vec![], 991);
    reg.upsert("c".to_string(), None, vec![], 992);
    let ids: Vec<String> = reg
        .recent_devices(1000, 60)
        .into_iter()
        .map(|d| d.node_id)
        .collect();
    assert_eq!(ids, ["a", "b", "c"]);
}
