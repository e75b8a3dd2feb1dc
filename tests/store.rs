use uptime_probe::request::{CreateNodeRequest, InvalidField};
use uptime_probe::store::{LocalPeer, PeerFields, PeerStore, StoreError};

fn request(name: &str) -> CreateNodeRequest {
    CreateNodeRequest {
        name: name.to_string(),
        host: "10.1.1.1".to_string(),
        port: 11010,
        protocol: "udp".to_string(),
        description: None,
        max_connections: 100,
        allow_relay: false,
        network_name: "n".to_string(),
        network_secret: Some("k".to_string()),
        qq_number: None,
        wechat: None,
        mail: None,
    }
}

#[test]
fn create_assigns_increasing_ids() {
    let mut s = PeerStore::new();
    assert_eq!(s.create(&request("a"), Some(10), false), Ok(1));
    assert_eq!(s.create(&request("b"), None, true), Ok(2));
    assert_eq!(s.create(&request("c"), None, true), Ok(3));
    assert!(!s.get(1).unwrap().is_approved);
    assert_eq!(s.get(2).unwrap().network_secret, "k");
}

#[test]
fn create_refuses_duplicate_backend_id() {
    let mut s = PeerStore::new();
    s.create(&request("a"), Some(10), true).unwrap();
    assert_eq!(s.create(&request("b"), Some(10), true), Err(StoreError::DuplicateBackendId));
    assert_eq!(s.len(), 1);
}

#[test]
fn create_refuses_invalid_request() {
    let mut s = PeerStore::new();
    let mut r = request("a");
    r.host = String::new();
    assert_eq!(s.create(&r, None, true), Err(StoreError::Invalid(InvalidField::Host)));
    assert_eq!(s.len(), 0);
}

#[test]
fn update_rewrites_backend_fields_only() {
    let mut s = PeerStore::new();
    s.create(&request("a"), Some(1), true).unwrap();
    let f = PeerFields {
        name: "b".to_string(),
        host: "h".to_string(),
        port: 9,
        protocol: "tcp".to_string(),
        network_name: "m".to_string(),
        network_secret: "z".to_string(),
    };
    assert_eq!(s.update(1, &f), Ok(()));
    let p = s.get(1).unwrap();
    assert_eq!(p.name, "b");
    assert_eq!(p.backend_id, Some(1));
    assert!(p.is_approved);
    assert_eq!(s.update(2, &f), Err(StoreError::NotFound));
}

fn saved(id: i32, backend_id: Option<i32>) -> LocalPeer {
    LocalPeer {
        id,
        backend_id,
        name: "x".to_string(),
        host: "h".to_string(),
        port: 1,
        protocol: "tcp".to_string(),
        description: None,
        max_connections: 1,
        allow_relay: true,
        network_name: "n".to_string(),
        network_secret: String::new(),
        is_approved: true,
    }
}

#[test]
fn restore_keeps_ids_and_moves_next_id() {
    let mut s = PeerStore::new();
    assert_eq!(s.restore(saved(40, Some(4))), Ok(()));
    assert_eq!(s.restore(saved(40, None)), Err(StoreError::DuplicateId));
    assert_eq!(s.restore(saved(41, Some(4))), Err(StoreError::DuplicateBackendId));
    assert_eq!(s.restore(saved(0, None)), Err(StoreError::InvalidId));
    assert_eq!(s.restore(saved(i32::MAX, None)), Err(StoreError::InvalidId));
    assert_eq!(s.create(&request("a"), None, true), Ok(41));
}

#[test]
fn ids_run_out_at_the_top() {
    let mut s = PeerStore::new();
    s.restore(saved(i32::MAX - 1, None)).unwrap();
    assert_eq!(s.create(&request("a"), None, true), Err(StoreError::IdsExhausted));
}
