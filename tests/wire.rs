use uptime_probe::wire::{BackendPeer, Endpoint, NodePrivateInfo, NodeStatus};

fn info() -> NodePrivateInfo {
    NodePrivateInfo {
        id: 0,
        name: "string".to_string(),
        protocol: Some("udp".to_string()),
        description: None,
        sponsor: None,
        location: Some("x".to_string()),
        allow_relay: Some(false),
        created_at: None,
        updated_at: None,
        public_ip: Some("192.168.1.1:11012".to_string()),
        network_name: Some("test-network".to_string()),
        network_secret: Some("secret123".to_string()),
    }
}

#[test]
fn status_and_private_info_combine() {
    let status = NodeStatus {
        node_id: 0,
        status: "online".to_string(),
        latency_ms: Some(50),
        peer: Some(2),
        last_heartbeat: None,
    };
    let p = BackendPeer::from_parts(status, info());
    assert_eq!(p.id, 0);
    assert_eq!(p.network_secret, Some("secret123".to_string()));
    assert_eq!(p.status, "online");
    assert_eq!(p.peer, Some(2));
    assert_eq!(p.protocol, Some("udp".to_string()));
    assert_eq!(p.copied(), p);
    assert_eq!(
        p.endpoint(),
        Some(Endpoint { host: "192.168.1.1".to_string(), port: 11012 })
    );
}

#[test]
fn endpoint_needs_an_address() {
    let status = NodeStatus { node_id: 1, status: "offline".to_string(), latency_ms: None, peer: None, last_heartbeat: None };
    let mut i = info();
    i.public_ip = None;
    let mut p = BackendPeer::from_parts(status, i);
    assert_eq!(p.endpoint(), None);
    p.host = Some("h".to_string());
    assert_eq!(p.endpoint(), Some(Endpoint { host: "h".to_string(), port: 11010 }));
}
