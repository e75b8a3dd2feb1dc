//! Shaping status reports from a health snapshot: one aggregate report about
//! the probe itself, or one report per peer.

use vstd::prelude::*;
use crate::health::{HealthEntry, HealthStatus};
use crate::metadata::PeerMetadataCache;
use crate::store::{PeerStore, StoreModel, has_id, id_index};
use crate::wire::{BackendPeer, HeartbeatRequest, copy_text};

verus! {

/// Probe ticks in one millisecond.
pub const TICKS_PER_MS: u32 = 1000;

/// Latencies, in ticks, of the healthy entries that have one, in order.
pub open spec fn healthy_latencies(es: Seq<HealthEntry>) -> Seq<u32>
    decreases es.len(),
{
    if es.len() == 0 {
        Seq::empty()
    } else {
        let prev = healthy_latencies(es.drop_last());
        let e = es.last();
        if e.status == HealthStatus::Healthy && e.latency_ticks is Some {
            prev.push(e.latency_ticks->0)
        } else {
            prev
        }
    }
}

pub open spec fn healthy_count(es: Seq<HealthEntry>) -> nat
    decreases es.len(),
{
    if es.len() == 0 {
        0
    } else {
        healthy_count(es.drop_last()) + if es.last().status == HealthStatus::Healthy {
            1nat
        } else {
            0nat
        }
    }
}

/// Sum of the latencies, each first cut down to whole milliseconds.
pub open spec fn sum_ms(ts: Seq<u32>) -> nat
    decreases ts.len(),
{
    if ts.len() == 0 {
        0
    } else {
        sum_ms(ts.drop_last()) + (ts.last() / 1000) as nat
    }
}

pub open spec fn max_ticks(ts: Seq<u32>) -> u32
    decreases ts.len(),
{
    if ts.len() == 0 {
        0
    } else {
        let m = max_ticks(ts.drop_last());
        if ts.last() > m {
            ts.last()
        } else {
            m
        }
    }
}

/// The probe's own report: how many peers it watches, how many answer, and
/// their average and largest latency in whole milliseconds (none without a
/// healthy latency).
#[derive(Debug, Clone, Copy, PartialEq, Eq, Structural)]
pub struct AggregateReport {
    pub total: usize,
    pub healthy: usize,
    pub avg_latency_ms: Option<u32>,
    pub max_latency_ms: Option<u32>,
}

pub open spec fn spec_aggregate(es: Seq<HealthEntry>) -> AggregateReport {
    let ts = healthy_latencies(es);
    AggregateReport {
        total: es.len() as usize,
        healthy: healthy_count(es) as usize,
        avg_latency_ms: if ts.len() == 0 {
            None
        } else {
            Some((sum_ms(ts) / ts.len()) as u32)
        },
        max_latency_ms: if ts.len() == 0 {
            None
        } else {
            Some((max_ticks(ts) / 1000) as u32)
        },
    }
}

proof fn lemma_latencies_bounded(es: Seq<HealthEntry>)
    ensures
        healthy_latencies(es).len() <= es.len(),
        healthy_count(es) <= es.len(),
        sum_ms(healthy_latencies(es)) <= healthy_latencies(es).len() * 4294967,
    decreases es.len(),
{
    if es.len() > 0 {
        lemma_latencies_bounded(es.drop_last());
        let prev = healthy_latencies(es.drop_last());
        let e = es.last();
        if e.status == HealthStatus::Healthy && e.latency_ticks is Some {
            let t = e.latency_ticks->0;
            assert(prev.push(t).drop_last() =~= prev);
            assert(t / 1000 <= 4294967);
        }
    }
}

/// Builds the probe's aggregate report from a health snapshot.
pub fn aggregate(entries: &Vec<HealthEntry>) -> (r: AggregateReport)
    ensures
        r == spec_aggregate(entries@),
{
    let mut healthy: usize = 0;
    let mut count: u64 = 0;
    let mut sum: u128 = 0;
    let mut max: u32 = 0;
    let mut i: usize = 0;
    while i < entries.len()
        invariant
            i <= entries@.len(),
            healthy == healthy_count(entries@.subrange(0, i as int)),
            count == healthy_latencies(entries@.subrange(0, i as int)).len(),
            sum == sum_ms(healthy_latencies(entries@.subrange(0, i as int))),
            max == max_ticks(healthy_latencies(entries@.subrange(0, i as int))),
            count <= i,
            healthy <= i,
            sum <= count * 4294967,
        decreases entries@.len() - i,
    {
        let ghost prev = entries@.subrange(0, i as int);
        let ghost next = entries@.subrange(0, i + 1);
        assert(next.drop_last() =~= prev);
        let e = &entries[i];
        if e.status == HealthStatus::Healthy {
            healthy = healthy + 1;
            if let Some(t) = e.latency_ticks {
                let ghost ts = healthy_latencies(prev);
                assert(ts.push(t).drop_last() =~= ts);
                assert(t / 1000 <= 4294967);
                sum = sum + (t / 1000) as u128;
                count = count + 1;
                if t > max {
                    max = t;
                }
            }
        }
        i = i + 1;
    }
    assert(entries@.subrange(0, i as int) =~= entries@);
    let (avg, top) = if count == 0 {
        (None, None)
    } else {
        assert((sum as int) / (count as int) <= 4294967) by (nonlinear_arith)
            requires
                sum <= count * 4294967,
                count > 0,
        ;
        (Some((sum / count as u128) as u32), Some(max / 1000))
    };
    AggregateReport { total: entries.len(), healthy, avg_latency_ms: avg, max_latency_ms: top }
}

/// The status report for one peer, addressed by its backend identity.
#[derive(Debug, Clone, PartialEq, Eq)]
pub struct PeerReport {
    pub backend_id: i32,
    pub peer_id: i32,
    pub online: bool,
    pub latency_ms: i32,
    pub peer_count: i32,
    pub network_name: Option<String>,
    pub region: Option<String>,
    pub isp: Option<String>,
    pub error: Option<String>,
}

/// The report for one snapshot entry, or none when its record is missing or
/// carries no backend identity.
pub open spec fn spec_peer_report(
    e: HealthEntry,
    store: StoreModel,
    cache: Map<i32, BackendPeer>,
) -> Option<PeerReport> {
    if !has_id(store.records, e.peer_id) {
        None
    } else {
        match store.records[id_index(store.records, e.peer_id)].backend_id {
            None => None,
            Some(b) => {
                let meta = if cache.contains_key(e.peer_id) {
                    Some(cache[e.peer_id])
                } else {
                    None
                };
                Some(
                    PeerReport {
                        backend_id: b,
                        peer_id: e.peer_id,
                        online: e.status == HealthStatus::Healthy,
                        latency_ms: match e.latency_ticks {
                            Some(t) => (t / 1000) as i32,
                            None => 0,
                        },
                        peer_count: match meta {
                            Some(m) => match m.peer {
                                Some(n) => n,
                                None => 0,
                            },
                            None => 0,
                        },
                        network_name: match meta {
                            Some(m) => m.network_name,
                            None => None,
                        },
                        region: match meta {
                            Some(m) => m.region,
                            None => None,
                        },
                        isp: match meta {
                            Some(m) => m.isp,
                            None => None,
                        },
                        error: e.error,
                    },
                )
            },
        }
    }
}

/// Reports for the entries of a snapshot, in order, leaving out those that
/// cannot be addressed.
pub open spec fn spec_peer_reports(
    es: Seq<HealthEntry>,
    store: StoreModel,
    cache: Map<i32, BackendPeer>,
) -> Seq<PeerReport>
    decreases es.len(),
{
    if es.len() == 0 {
        Seq::empty()
    } else {
        let prev = spec_peer_reports(es.drop_last(), store, cache);
        match spec_peer_report(es.last(), store, cache) {
            Some(r) => prev.push(r),
            None => prev,
        }
    }
}

/// Builds the report for one snapshot entry.
pub fn peer_report(e: &HealthEntry, store: &PeerStore, cache: &PeerMetadataCache) -> (r: Option<
    PeerReport,
>)
    requires
        store.wf(),
    ensures
        r == spec_peer_report(*e, store@, cache@),
{
    let peer = match store.get(e.peer_id) {
        None => {
            return None;
        },
        Some(p) => p,
    };
    let backend_id = match peer.backend_id {
        None => {
            return None;
        },
        Some(b) => b,
    };
    let meta = cache.get(e.peer_id);
    let latency_ms: i32 = match e.latency_ticks {
        Some(t) => (t / TICKS_PER_MS) as i32,
        None => 0,
    };
    let (peer_count, network_name, region, isp) = match &meta {
        Some(m) => (
            match m.peer {
                Some(n) => n,
                None => 0,
            },
            copy_text(&m.network_name),
            copy_text(&m.region),
            copy_text(&m.isp),
        ),
        None => (0, None, None, None),
    };
    Some(
        PeerReport {
            backend_id,
            peer_id: e.peer_id,
            online: e.status == HealthStatus::Healthy,
            latency_ms,
            peer_count,
            network_name,
            region,
            isp,
            error: copy_text(&e.error),
        },
    )
}

/// Builds the per-peer reports of a snapshot; entries whose record is missing
/// or has no backend identity are left out, the others kept in order.
pub fn peer_reports(entries: &Vec<HealthEntry>, store: &PeerStore, cache: &PeerMetadataCache) -> (r:
    Vec<PeerReport>)
    requires
        store.wf(),
    ensures
        r@ == spec_peer_reports(entries@, store@, cache@),
{
    let mut out: Vec<PeerReport> = Vec::new();
    let mut i: usize = 0;
    while i < entries.len()
        invariant
            store.wf(),
            i <= entries@.len(),
            out@ == spec_peer_reports(entries@.subrange(0, i as int), store@, cache@),
        decreases entries@.len() - i,
    {
        let ghost next = entries@.subrange(0, i + 1);
        assert(next.drop_last() =~= entries@.subrange(0, i as int));
        if let Some(rep) = peer_report(&entries[i], store, cache) {
            out.push(rep);
        }
        i = i + 1;
    }
    assert(entries@.subrange(0, i as int) =~= entries@);
    out
}

/// A report of either kind.
#[derive(Debug, Clone, PartialEq, Eq)]
pub enum ReportPayload {
    Aggregate(AggregateReport),
    PerPeer(PeerReport),
}

/// Node id under which the probe reports about itself.
pub const PROBE_NODE_ID: i32 = 0;

impl ReportPayload {
    /// The backend node the report is about.
    pub fn target(&self) -> (r: i32)
        ensures
            r == match self {
                ReportPayload::Aggregate(_) => PROBE_NODE_ID,
                ReportPayload::PerPeer(p) => p.backend_id,
            },
    {
        match self {
            ReportPayload::Aggregate(_) => PROBE_NODE_ID,
            ReportPayload::PerPeer(p) => p.backend_id,
        }
    }

    /// The heartbeat body. The probe always reports itself online; a peer is
    /// online when its last probe answered. An aggregate's peer count is the
    /// number of healthy peers (capped at `i32::MAX`) and its latency the
    /// average, or 0 without one.
    pub fn heartbeat(&self) -> (r: HeartbeatRequest)
        ensures
            match self {
                ReportPayload::Aggregate(a) => {
                    &&& r.status@ == "online"@
                    &&& r.peer == if a.healthy <= i32::MAX {
                        a.healthy as i32
                    } else {
                        i32::MAX
                    }
                    &&& r.latency_ms == match a.avg_latency_ms {
                        Some(v) => if v <= i32::MAX {
                            v as i32
                        } else {
                            i32::MAX
                        },
                        None => 0,
                    }
                },
                ReportPayload::PerPeer(p) => {
                    &&& r.status@ == if p.online {
                        "online"@
                    } else {
                        "offline"@
                    }
                    &&& r.peer == p.peer_count
                    &&& r.latency_ms == p.latency_ms
                },
            },
    {
        match self {
            ReportPayload::Aggregate(a) => {
                let peer: i32 = if a.healthy <= i32::MAX as usize {
                    a.healthy as i32
                } else {
                    i32::MAX
                };
                let latency_ms: i32 = match a.avg_latency_ms {
                    Some(v) => {
                        if v <= i32::MAX as u32 {
                            v as i32
                        } else {
                            i32::MAX
                        }
                    },
                    None => 0,
                };
                HeartbeatRequest { status: "online".to_owned(), peer, latency_ms }
            },
            ReportPayload::PerPeer(p) => HeartbeatRequest {
                status: if p.online {
                    "online".to_owned()
                } else {
                    "offline".to_owned()
                },
                peer: p.peer_count,
                latency_ms: p.latency_ms,
            },
        }
    }
}

} // verus!
