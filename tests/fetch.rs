use uptime_probe::fetch::{FetchFailures, FetchVerdict};
use uptime_probe::metadata::PeerMetadataCache;
use uptime_probe::wire::{BackendPeer, NodePrivateInfo, NodeStatus};

#[test]
fn failures_escalate_at_threshold_and_restart() {
    let mut f = FetchFailures::standard();
    assert_eq!(f.record(false), FetchVerdict::Failed(1));
    assert_eq!(f.record(false), FetchVerdict::Failed(2));
    assert_eq!(f.record(false), FetchVerdict::Failed(3));
    assert_eq!(f.record(false), FetchVerdict::Failed(4));
    assert_eq!(f.record(false), FetchVerdict::Escalated);
    assert_eq!(f.consecutive, 0);
    assert_eq!(f.record(false), FetchVerdict::Failed(1));
    assert_eq!(f.record(true), FetchVerdict::Reconcile);
    assert_eq!(f.consecutive, 0);
}

#[test]
fn threshold_of_one_escalates_every_failure() {
    let mut f = FetchFailures::new(1);
    assert_eq!(f.record(false), FetchVerdict::Escalated);
    assert_eq!(f.record(false), FetchVerdict::Escalated);
}

fn peer(id: i32, name: &str) -> BackendPeer {
    let status = NodeStatus { node_id: id, status: "online".to_string(), latency_ms: None, peer: Some(id), last_heartbeat: None };
    let info = NodePrivateInfo {
        id,
        name: name.to_string(),
        protocol: None,
        description: None,
        sponsor: None,
        location: None,
        allow_relay: None,
        created_at: None,
        updated_at: None,
        public_ip: None,
        network_name: None,
        network_secret: None,
    };
    BackendPeer::from_parts(status, info)
}

#[test]
fn metadata_cache_keeps_latest_per_peer() {
    let mut c = PeerMetadataCache::new();
    assert_eq!(c.get(1), None);
    c.put(1, peer(10, "first"));
    c.put(2, peer(20, "other"));
    c.put(1, peer(11, "second"));
    assert_eq!(c.get(1).unwrap().name, "second");
    assert_eq!(c.get(2).unwrap().id, 20);
    assert_eq!(c.get(3), None);
}
