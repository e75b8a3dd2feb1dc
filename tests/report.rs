use uptime_probe::health::{HealthEntry, HealthRegistry, HealthStatus, ProbeOutcome};
use uptime_probe::metadata::PeerMetadataCache;
use uptime_probe::report::{aggregate, peer_reports, AggregateReport, PeerReport, ReportPayload};
use uptime_probe::request::CreateNodeRequest;
use uptime_probe::store::PeerStore;
use uptime_probe::wire::BackendPeer;

fn entry(peer_id: i32, status: HealthStatus, latency_ticks: Option<u32>) -> HealthEntry {
    HealthEntry { peer_id, status, latency_ticks, error: None, observed: 0 }
}

#[test]
fn aggregate_converts_ticks_to_milliseconds() {
    let es = vec![
        entry(1, HealthStatus::Healthy, Some(5000)),
        entry(2, HealthStatus::Healthy, Some(7000)),
        entry(3, HealthStatus::Healthy, Some(9000)),
    ];
    let a = aggregate(&es);
    assert_eq!(a.avg_latency_ms, Some(7));
    assert_eq!(a.max_latency_ms, Some(9));
    assert_eq!(a.total, 3);
    assert_eq!(a.healthy, 3);
}

#[test]
fn aggregate_truncates_each_latency_then_averages() {
    let es = vec![
        entry(1, HealthStatus::Healthy, Some(1999)),
        entry(2, HealthStatus::Healthy, Some(2999)),
        entry(3, HealthStatus::Unhealthy, None),
        entry(4, HealthStatus::Healthy, None),
        entry(5, HealthStatus::Unknown, Some(100000)),
    ];
    let a = aggregate(&es);
    assert_eq!(a.total, 5);
    assert_eq!(a.healthy, 3);
    assert_eq!(a.avg_latency_ms, Some(1));
    assert_eq!(a.max_latency_ms, Some(2));
}

#[test]
fn aggregate_of_nothing_has_no_latency() {
    let a = aggregate(&vec![]);
    assert_eq!(a, AggregateReport { total: 0, healthy: 0, avg_latency_ms: None, max_latency_ms: None });
    let hb = ReportPayload::Aggregate(a).heartbeat();
    assert_eq!(hb.status, "online");
    assert_eq!(hb.latency_ms, 0);
    assert_eq!(hb.peer, 0);
}

#[test]
fn aggregate_heartbeat_reports_probe_online() {
    let es = vec![entry(1, HealthStatus::Unhealthy, None), entry(2, HealthStatus::Healthy, Some(42000))];
    let p = ReportPayload::Aggregate(aggregate(&es));
    assert_eq!(p.target(), 0);
    let hb = p.heartbeat();
    assert_eq!(hb.status, "online");
    assert_eq!(hb.peer, 1);
    assert_eq!(hb.latency_ms, 42);
}

fn request(name: &str) -> CreateNodeRequest {
    CreateNodeRequest {
        name: name.to_string(),
        host: "h".to_string(),
        port: 1,
        protocol: "tcp".to_string(),
        description: None,
        max_connections: 1,
        allow_relay: true,
        network_name: "n".to_string(),
        network_secret: None,
        qq_number: None,
        wechat: None,
        mail: None,
    }
}

fn meta(id: i32) -> BackendPeer {
    BackendPeer {
        id,
        name: "m".to_string(),
        description: None,
        sponsor: None,
        location: None,
        allow_relay: None,
        host: None,
        port: None,
        public_ip: None,
        protocol: None,
        network_name: Some("mesh".to_string()),
        network_secret: None,
        region: Some("ap".to_string()),
        isp: Some("isp1".to_string()),
        status: "online".to_string(),
        latency_ms: None,
        peer: Some(12),
        last_heartbeat: None,
    }
}

#[test]
fn per_peer_reports_skip_unresolvable_peers() {
    let mut store = PeerStore::new();
    store.create(&request("a"), Some(100), true).unwrap();
    store.create(&request("b"), None, true).unwrap();
    let mut cache = PeerMetadataCache::new();
    cache.put(1, meta(100));
    let mut reg = HealthRegistry::new();
    reg.record_probe_result(1, ProbeOutcome::Reachable { latency_ticks: 3500 });
    reg.record_probe_result(2, ProbeOutcome::Reachable { latency_ticks: 1000 });
    reg.record_probe_result(3, ProbeOutcome::Unreachable { error: "timeout".to_string() });
    let reports = peer_reports(&reg.get_all_statuses(), &store, &cache);
    assert_eq!(
        reports,
        vec![PeerReport {
            backend_id: 100,
            peer_id: 1,
            online: true,
            latency_ms: 3,
            peer_count: 12,
            network_name: Some("mesh".to_string()),
            region: Some("ap".to_string()),
            isp: Some("isp1".to_string()),
            error: None,
        }]
    );
    let hb = ReportPayload::PerPeer(reports[0].clone()).heartbeat();
    assert_eq!(hb.status, "online");
    assert_eq!(hb.peer, 12);
    assert_eq!(hb.latency_ms, 3);
}

#[test]
fn offline_peer_reports_zero_latency() {
    let mut store = PeerStore::new();
    store.create(&request("a"), Some(7), true).unwrap();
    let cache = PeerMetadataCache::new();
    let mut reg = HealthRegistry::new();
    reg.record_probe_result(1, ProbeOutcome::Unreachable { error: "refused".to_string() });
    let reports = peer_reports(&reg.get_all_statuses(), &store, &cache);
    assert_eq!(reports.len(), 1);
    assert!(!reports[0].online);
    assert_eq!(reports[0].latency_ms, 0);
    assert_eq!(reports[0].peer_count, 0);
    assert_eq!(reports[0].error, Some("refused".to_string()));
    let p = ReportPayload::PerPeer(reports[0].clone());
    assert_eq!(p.target(), 7);
    assert_eq!(p.heartbeat().status, "offline");
}
