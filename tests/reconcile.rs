use uptime_probe::health::HealthRegistry;
use uptime_probe::metadata::PeerMetadataCache;
use uptime_probe::reconcile::{reconcile, SyncOutcome};
use uptime_probe::request::InvalidField;
use uptime_probe::store::{PeerStore, StoreError};
use uptime_probe::wire::BackendPeer;

fn descriptor(id: i32, name: &str, public_ip: Option<&str>, secret: Option<&str>) -> BackendPeer {
    BackendPeer {
        id,
        name: name.to_string(),
        description: None,
        sponsor: None,
        location: None,
        allow_relay: None,
        host: None,
        port: None,
        public_ip: public_ip.map(|s| s.to_string()),
        protocol: None,
        network_name: Some("net".to_string()),
        network_secret: secret.map(|s| s.to_string()),
        region: Some("eu".to_string()),
        isp: None,
        status: "online".to_string(),
        latency_ms: None,
        peer: Some(4),
        last_heartbeat: None,
    }
}

fn fresh() -> (PeerStore, HealthRegistry, PeerMetadataCache) {
    (PeerStore::new(), HealthRegistry::new(), PeerMetadataCache::new())
}

#[test]
fn new_descriptors_become_approved_records() {
    let (mut store, mut reg, mut cache) = fresh();
    let batch = vec![
        descriptor(7, "alpha", Some("10.0.0.1:11011"), Some("s1")),
        descriptor(9, "beta", Some("10.0.0.2"), None),
    ];
    let out = reconcile(&mut store, &mut reg, &mut cache, &batch);
    assert_eq!(out, vec![SyncOutcome::Created(1), SyncOutcome::Created(2)]);
    let a = store.get_by_backend_id(7).unwrap();
    assert_eq!(a.id, 1);
    assert_eq!(a.host, "10.0.0.1");
    assert_eq!(a.port, 11011);
    assert_eq!(a.protocol, "tcp");
    assert_eq!(a.network_secret, "s1");
    assert!(a.is_approved);
    assert!(a.allow_relay);
    let b = store.get_by_backend_id(9).unwrap();
    assert_eq!(b.port, 11010);
    assert_eq!(b.network_secret, "");
    assert_eq!(cache.get(2).unwrap().id, 9);
}

#[test]
fn reconciling_twice_is_idempotent() {
    let (mut store, mut reg, mut cache) = fresh();
    let batch = vec![
        descriptor(1, "a", Some("1.1.1.1:1"), Some("x")),
        descriptor(2, "b", None, None),
        descriptor(3, "c", Some("3.3.3.3"), None),
    ];
    reconcile(&mut store, &mut reg, &mut cache, &batch);
    let before = store.records().clone();
    let out = reconcile(&mut store, &mut reg, &mut cache, &batch);
    assert_eq!(
        out,
        vec![SyncOutcome::Unchanged(1), SyncOutcome::Skipped, SyncOutcome::Unchanged(2)]
    );
    assert_eq!(store.records(), &before);
    assert!(!reg.take_reload(1));
    assert!(!reg.take_reload(2));
}

#[test]
fn records_are_never_deleted() {
    let (mut store, mut reg, mut cache) = fresh();
    reconcile(&mut store, &mut reg, &mut cache, &vec![descriptor(1, "a", Some("1.1.1.1"), None)]);
    reconcile(&mut store, &mut reg, &mut cache, &vec![descriptor(2, "b", Some("2.2.2.2"), None)]);
    let out = reconcile(&mut store, &mut reg, &mut cache, &vec![]);
    assert!(out.is_empty());
    assert_eq!(store.len(), 2);
    assert!(store.get_by_backend_id(1).is_some());
}

#[test]
fn known_identity_gets_no_second_record() {
    let (mut store, mut reg, mut cache) = fresh();
    reconcile(&mut store, &mut reg, &mut cache, &vec![descriptor(5, "a", Some("1.1.1.1"), None)]);
    let out = reconcile(
        &mut store,
        &mut reg,
        &mut cache,
        &vec![descriptor(5, "a", Some("9.9.9.9:90"), None)],
    );
    assert_eq!(out, vec![SyncOutcome::Reloaded(1)]);
    assert_eq!(store.len(), 1);
    assert_eq!(store.get(1).unwrap().host, "9.9.9.9");
    assert_eq!(store.get(1).unwrap().port, 90);
}

#[test]
fn secret_change_triggers_one_reload() {
    let (mut store, mut reg, mut cache) = fresh();
    reconcile(&mut store, &mut reg, &mut cache, &vec![descriptor(5, "a", Some("1.1.1.1"), Some("old"))]);
    let out = reconcile(
        &mut store,
        &mut reg,
        &mut cache,
        &vec![descriptor(5, "a", Some("1.1.1.1"), Some("new"))],
    );
    let reloads = out.iter().filter(|o| **o == SyncOutcome::Reloaded(1)).count();
    assert_eq!(reloads, 1);
    assert_eq!(out.len(), 1);
    assert_eq!(store.get(1).unwrap().network_secret, "new");
    assert!(reg.take_reload(1));
    assert!(!reg.take_reload(1));
}

#[test]
fn name_change_updates_without_reload() {
    let (mut store, mut reg, mut cache) = fresh();
    reconcile(&mut store, &mut reg, &mut cache, &vec![descriptor(5, "a", Some("1.1.1.1"), None)]);
    let out = reconcile(&mut store, &mut reg, &mut cache, &vec![descriptor(5, "renamed", Some("1.1.1.1"), None)]);
    assert_eq!(out, vec![SyncOutcome::Updated(1)]);
    assert_eq!(store.get(1).unwrap().name, "renamed");
    assert!(!reg.take_reload(1));
}

#[test]
fn missing_address_is_skipped_and_batch_goes_on() {
    let (mut store, mut reg, mut cache) = fresh();
    let batch = vec![
        descriptor(1, "no-address", None, None),
        descriptor(2, "ok", Some("2.2.2.2:22"), None),
    ];
    let out = reconcile(&mut store, &mut reg, &mut cache, &batch);
    assert_eq!(out, vec![SyncOutcome::Skipped, SyncOutcome::Created(1)]);
    assert_eq!(store.len(), 1);
    assert!(store.get_by_backend_id(1).is_none());
    assert!(store.get_by_backend_id(2).is_some());
}

#[test]
fn explicit_host_wins_over_public_ip() {
    let (mut store, mut reg, mut cache) = fresh();
    let mut d = descriptor(3, "h", Some("5.5.5.5:55"), None);
    d.host = Some("peer.example".to_string());
    d.port = Some(443);
    reconcile(&mut store, &mut reg, &mut cache, &vec![d]);
    let p = store.get_by_backend_id(3).unwrap();
    assert_eq!(p.host, "peer.example");
    assert_eq!(p.port, 443);
}

#[test]
fn invalid_descriptor_fails_alone() {
    let (mut store, mut reg, mut cache) = fresh();
    let batch = vec![
        descriptor(1, "", Some("1.1.1.1"), None),
        descriptor(2, "good", Some("2.2.2.2:0"), None),
        descriptor(3, "good", Some("3.3.3.3"), None),
    ];
    let out = reconcile(&mut store, &mut reg, &mut cache, &batch);
    assert_eq!(
        out,
        vec![
            SyncOutcome::Failed(StoreError::Invalid(InvalidField::Name)),
            SyncOutcome::Failed(StoreError::Invalid(InvalidField::Port)),
            SyncOutcome::Created(1),
        ]
    );
}
