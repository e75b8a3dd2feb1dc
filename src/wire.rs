//! Values exchanged with the backend: peer descriptors, node statuses, private
//! node information and heartbeats.

use vstd::prelude::*;
use crate::address::{split_host_port, spec_split_host_port, DEFAULT_PORT};

verus! {

/// An equal copy of an optional text field.
pub fn copy_text(o: &Option<String>) -> (r: Option<String>)
    ensures
        r == *o,
{
    match o {
        Some(s) => Some(s.clone()),
        None => None,
    }
}

/// Peer descriptor as the backend reports it. It arrives fresh on every fetch.
#[derive(Debug, Clone, PartialEq, Eq)]
pub struct BackendPeer {
    pub id: i32,
    pub name: String,
    pub description: Option<String>,
    pub sponsor: Option<String>,
    pub location: Option<String>,
    pub allow_relay: Option<bool>,
    pub host: Option<String>,
    pub port: Option<i32>,
    pub public_ip: Option<String>,
    pub protocol: Option<String>,
    pub network_name: Option<String>,
    pub network_secret: Option<String>,
    pub region: Option<String>,
    pub isp: Option<String>,
    pub status: String,
    pub latency_ms: Option<i32>,
    pub peer: Option<i32>,
    pub last_heartbeat: Option<String>,
}

/// One entry of the backend's node status list.
#[derive(Debug, Clone, PartialEq, Eq)]
pub struct NodeStatus {
    pub node_id: i32,
    pub status: String,
    pub latency_ms: Option<i32>,
    pub peer: Option<i32>,
    pub last_heartbeat: Option<String>,
}

/// Connection details of one node, as the backend gives them to authenticated callers.
#[derive(Debug, Clone, PartialEq, Eq)]
pub struct NodePrivateInfo {
    pub id: i32,
    pub name: String,
    pub protocol: Option<String>,
    pub description: Option<String>,
    pub sponsor: Option<String>,
    pub location: Option<String>,
    pub allow_relay: Option<bool>,
    pub created_at: Option<String>,
    pub updated_at: Option<String>,
    pub public_ip: Option<String>,
    pub network_name: Option<String>,
    pub network_secret: Option<String>,
}

/// Envelope of the paged peer list endpoint.
#[derive(Debug, Clone, PartialEq, Eq)]
pub struct PeersResponse {
    pub code: i32,
    pub message: String,
    pub data: Option<PeersData>,
}

#[derive(Debug, Clone, PartialEq, Eq)]
pub struct PeersData {
    pub peers: Vec<BackendPeer>,
    pub total_available: i32,
    pub next_batch_available: bool,
}

/// Body of a heartbeat report for one node.
#[derive(Debug, Clone, PartialEq, Eq)]
pub struct HeartbeatRequest {
    pub status: String,
    pub peer: i32,
    pub latency_ms: i32,
}

/// The backend's answer to a heartbeat.
#[derive(Debug, Clone, PartialEq, Eq)]
pub struct HeartbeatResponse {
    pub success: bool,
    pub heartbeat: HeartbeatData,
    pub node_status: NodeStatusData,
}

#[derive(Debug, Clone, PartialEq, Eq)]
pub struct HeartbeatData {
    pub id: i32,
    pub node_id: i32,
    pub status: String,
    pub peer: i32,
    pub latency_ms: i32,
    pub timestamp: String,
}

#[derive(Debug, Clone, PartialEq, Eq)]
pub struct NodeStatusData {
    pub node_id: i32,
    pub status: String,
    pub latency_ms: i32,
    pub peer: i32,
    pub last_heartbeat: String,
}

/// Where a peer can be reached.
#[derive(Debug, Clone, PartialEq, Eq)]
pub struct Endpoint {
    pub host: String,
    pub port: i32,
}

/// Host and port of a descriptor: an explicit host wins (with its port, or the
/// default one); else the `ip[:port]` string; with neither there is none.
pub open spec fn spec_endpoint(d: BackendPeer) -> Option<(Seq<char>, i32)> {
    match d.host {
        Some(h) => Some(
            (
                h@,
                match d.port {
                    Some(p) => p,
                    None => DEFAULT_PORT,
                },
            ),
        ),
        None => match d.public_ip {
            Some(ip) => Some(spec_split_host_port(ip@)),
            None => None,
        },
    }
}

impl BackendPeer {
    /// An equal copy of the descriptor.
    pub fn copied(&self) -> (r: BackendPeer)
        ensures
            r == *self,
    {
        BackendPeer {
            id: self.id,
            name: self.name.clone(),
            description: copy_text(&self.description),
            sponsor: copy_text(&self.sponsor),
            location: copy_text(&self.location),
            allow_relay: self.allow_relay,
            host: copy_text(&self.host),
            port: self.port,
            public_ip: copy_text(&self.public_ip),
            protocol: copy_text(&self.protocol),
            network_name: copy_text(&self.network_name),
            network_secret: copy_text(&self.network_secret),
            region: copy_text(&self.region),
            isp: copy_text(&self.isp),
            status: self.status.clone(),
            latency_ms: self.latency_ms,
            peer: self.peer,
            last_heartbeat: copy_text(&self.last_heartbeat),
        }
    }

    /// Joins a node's public status with its private connection details.
    pub fn from_parts(status: NodeStatus, info: NodePrivateInfo) -> (r: BackendPeer)
        ensures
            r.id == info.id,
            r.name == info.name,
            r.description == info.description,
            r.sponsor == info.sponsor,
            r.location == info.location,
            r.allow_relay == info.allow_relay,
            r.host is None,
            r.port is None,
            r.public_ip == info.public_ip,
            r.protocol == info.protocol,
            r.network_name == info.network_name,
            r.network_secret == info.network_secret,
            r.region is None,
            r.isp is None,
            r.status == status.status,
            r.latency_ms == status.latency_ms,
            r.peer == status.peer,
            r.last_heartbeat == status.last_heartbeat,
    {
        BackendPeer {
            id: info.id,
            name: info.name,
            description: info.description,
            sponsor: info.sponsor,
            location: info.location,
            allow_relay: info.allow_relay,
            host: None,
            port: None,
            public_ip: info.public_ip,
            protocol: info.protocol,
            network_name: info.network_name,
            network_secret: info.network_secret,
            region: None,
            isp: None,
            status: status.status,
            latency_ms: status.latency_ms,
            peer: status.peer,
            last_heartbeat: status.last_heartbeat,
        }
    }

    /// Resolves where the peer can be reached; `None` when the descriptor has no
    /// address at all.
    pub fn endpoint(&self) -> (r: Option<Endpoint>)
        ensures
            r matches Some(e) ==> spec_endpoint(*self) == Some((e.host@, e.port)),
            r is None <==> spec_endpoint(*self) is None,
    {
        match &self.host {
            Some(h) => {
                let port = match self.port {
                    Some(p) => p,
                    None => DEFAULT_PORT,
                };
                Some(Endpoint { host: h.clone(), port })
            },
            None => match &self.public_ip {
                Some(ip) => {
                    let (host, port) = split_host_port(ip.as_str());
                    Some(Endpoint { host, port })
                },
                None => None,
            },
        }
    }
}

} // verus!
