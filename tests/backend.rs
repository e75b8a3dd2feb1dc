use uptime_probe::backend::{chars_of, classify_status, check_heartbeat, contains_text, signals_unauthorized, BackendError};
use uptime_probe::wire::{HeartbeatData, HeartbeatResponse, NodeStatusData};

#[test]
fn success_statuses_pass() {
    assert_eq!(classify_status(200, ""), Ok(()));
    assert_eq!(classify_status(204, "Unauthorized"), Ok(()));
}

#[test]
fn unauthorized_is_recognised() {
    assert_eq!(classify_status(401, ""), Err(BackendError::Unauthorized));
    assert_eq!(classify_status(403, "token Unauthorized here"), Err(BackendError::Unauthorized));
    assert_eq!(classify_status(500, "upstream said 401"), Err(BackendError::Unauthorized));
    assert_eq!(classify_status(500, "internal"), Err(BackendError::Status(500)));
    assert!(BackendError::Unauthorized.is_unauthorized());
    assert!(!BackendError::Status(401).is_unauthorized());
}

#[test]
fn text_search() {
    assert!(signals_unauthorized("HTTP 401"));
    assert!(!signals_unauthorized("unauthorized"));
    assert!(!signals_unauthorized("40 1"));
    assert!(contains_text("abc", ""));
    assert!(contains_text("abcabd", "abd"));
    assert!(!contains_text("ab", "abc"));
    assert_eq!(chars_of("héllo"), vec!['h', 'é', 'l', 'l', 'o']);
}

fn response(success: bool) -> HeartbeatResponse {
    HeartbeatResponse {
        success,
        heartbeat: HeartbeatData {
            id: 0,
            node_id: 0,
            status: "online".to_string(),
            peer: 2,
            latency_ms: 50,
            timestamp: "2025-11-17T12:59:28.437Z".to_string(),
        },
        node_status: NodeStatusData {
            node_id: 0,
            status: "online".to_string(),
            latency_ms: 50,
            peer: 2,
            last_heartbeat: "2025-11-17T12:59:28.437Z".to_string(),
        },
    }
}

#[test]
fn heartbeat_needs_success_flag() {
    assert_eq!(check_heartbeat(&response(true)), Ok(()));
    assert_eq!(check_heartbeat(&response(false)), Err(BackendError::Rejected));
}
