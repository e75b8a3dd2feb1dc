use uptime_probe::health::{HealthRegistry, HealthStatus, ProbeOutcome};

#[test]
fn probe_results_overwrite_and_advance() {
    let mut r = HealthRegistry::new();
    r.record_probe_result(4, ProbeOutcome::Reachable { latency_ticks: 10 });
    r.record_probe_result(4, ProbeOutcome::Unreachable { error: "down".to_string() });
    assert_eq!(r.get_status(4), (HealthStatus::Unhealthy, Some("down".to_string())));
    let all = r.get_all_statuses();
    assert_eq!(all.len(), 1);
    assert_eq!(all[0].observed, 2);
    assert_eq!(all[0].latency_ticks, None);
}

#[test]
fn unknown_peer_is_unknown() {
    let r = HealthRegistry::new();
    assert_eq!(r.get_status(9), (HealthStatus::Unknown, None));
}

#[test]
fn snapshot_is_isolated_from_later_writes() {
    let mut r = HealthRegistry::new();
    for id in 0..50 {
        r.record_probe_result(id, ProbeOutcome::Reachable { latency_ticks: id as u32 });
    }
    let snap = r.get_all_statuses();
    for id in 50..100 {
        r.record_probe_result(id, ProbeOutcome::Reachable { latency_ticks: id as u32 });
    }
    for id in 0..50 {
        r.record_probe_result(id, ProbeOutcome::Unreachable { error: "gone".to_string() });
    }
    assert_eq!(snap.len(), 50);
    let mut ids: Vec<i32> = snap.iter().map(|e| e.peer_id).collect();
    ids.sort();
    ids.dedup();
    assert_eq!(ids.len(), 50);
    for e in &snap {
        assert_eq!(e.status, HealthStatus::Healthy);
        assert_eq!(e.latency_ticks, Some(e.peer_id as u32));
        assert_eq!(e.error, None);
    }
    assert_eq!(r.get_all_statuses().len(), 100);
}

#[test]
fn invalidate_is_idempotent() {
    let mut r = HealthRegistry::new();
    r.invalidate(3);
    r.invalidate(3);
    assert!(r.take_reload(3));
    assert!(!r.take_reload(3));
    assert!(!r.take_reload(4));
}
