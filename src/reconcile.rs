//! Merging a freshly fetched peer list into the local peer table.
//!
//! Each descriptor is handled on its own: one without an address is skipped, a
//! new backend identity becomes a new approved record, a known one has its
//! backend-owned fields brought up to date (with a reload request when a
//! connection parameter changed). Records are never deleted.

use vstd::prelude::*;
use crate::health::HealthRegistry;
use crate::metadata::PeerMetadataCache;
use crate::request::{CreateNodeRequest, RequestModel, text_view};
use crate::store::{
    FieldsModel, PeerFields, PeerRecord, PeerStore, StoreError, StoreModel, backend_index,
    create_outcome, created_record, has_backend_id, model_wf, with_fields,
};
use crate::wire::{BackendPeer, Endpoint, copy_text, spec_endpoint};

verus! {

/// What happened to one descriptor of a batch.
#[derive(Debug, Clone, Copy, PartialEq, Eq, Structural)]
pub enum SyncOutcome {
    /// No address: nothing was stored.
    Skipped,
    /// A new record with this local id.
    Created(i32),
    /// The record with this local id already matched.
    Unchanged(i32),
    /// Only cosmetic fields of the record changed.
    Updated(i32),
    /// A connection parameter of the record changed; a reload was requested.
    Reloaded(i32),
    /// The record could not be created.
    Failed(StoreError),
}

/// Everything a batch acts on: the peer table, the peers waiting for a
/// reload, and the metadata cache.
pub struct SyncState {
    pub store: StoreModel,
    pub reload: Set<i32>,
    pub cache: Map<i32, BackendPeer>,
}

pub open spec fn text_or(o: Option<String>, d: Seq<char>) -> Seq<char> {
    match o {
        Some(s) => s@,
        None => d,
    }
}

/// The backend-owned fields that a descriptor asks for.
pub open spec fn descriptor_fields(d: BackendPeer, host: Seq<char>, port: i32) -> FieldsModel {
    FieldsModel {
        name: d.name@,
        host,
        port,
        protocol: text_or(d.protocol, "tcp"@),
        network_name: text_or(d.network_name, "default"@),
        network_secret: text_or(d.network_secret, Seq::empty()),
    }
}

/// The creation request for a descriptor seen for the first time.
pub open spec fn descriptor_request(d: BackendPeer, host: Seq<char>, port: i32) -> RequestModel {
    RequestModel {
        name: d.name@,
        host,
        port,
        protocol: text_or(d.protocol, "tcp"@),
        description: Some("Auto-added from backend"@),
        max_connections: 100,
        allow_relay: match d.allow_relay {
            Some(b) => b,
            None => true,
        },
        network_name: text_or(d.network_name, "default"@),
        network_secret: text_view(d.network_secret),
        qq_number: None,
        wechat: None,
        mail: None,
    }
}

/// Whether applying `f` would change how the peer is reached or authenticated.
pub open spec fn connection_changed(r: PeerRecord, f: FieldsModel) -> bool {
    ||| r.host != f.host
    ||| r.port != f.port
    ||| r.protocol != f.protocol
    ||| r.network_name != f.network_name
    ||| r.network_secret != f.network_secret
}

/// Whether the record already holds every field of `f`.
pub open spec fn fields_match(r: PeerRecord, f: FieldsModel) -> bool {
    r.name == f.name && !connection_changed(r, f)
}

/// One descriptor merged into the state.
pub open spec fn sync_step(st: SyncState, d: BackendPeer) -> (SyncState, SyncOutcome) {
    match spec_endpoint(d) {
        None => (st, SyncOutcome::Skipped),
        Some(ep) => {
            let rs = st.store.records;
            if has_backend_id(rs, d.id) {
                let i = backend_index(rs, d.id);
                let r = rs[i];
                let f = descriptor_fields(d, ep.0, ep.1);
                let cache = st.cache.insert(r.id, d);
                let store = StoreModel {
                    records: rs.update(i, with_fields(r, f)),
                    next_id: st.store.next_id,
                };
                if fields_match(r, f) {
                    (SyncState { cache, ..st }, SyncOutcome::Unchanged(r.id))
                } else if connection_changed(r, f) {
                    (
                        SyncState { store, reload: st.reload.insert(r.id), cache },
                        SyncOutcome::Reloaded(r.id),
                    )
                } else {
                    (SyncState { store, cache, ..st }, SyncOutcome::Updated(r.id))
                }
            } else {
                let req = descriptor_request(d, ep.0, ep.1);
                match create_outcome(st.store, req, Some(d.id)) {
                    Ok(id) => (
                        SyncState {
                            store: StoreModel {
                                records: rs.push(created_record(id, req, Some(d.id), true)),
                                next_id: (id + 1) as i32,
                            },
                            cache: st.cache.insert(id, d),
                            ..st
                        },
                        SyncOutcome::Created(id),
                    ),
                    Err(e) => (st, SyncOutcome::Failed(e)),
                }
            }
        },
    }
}

/// A batch merged in order, with the outcome of each descriptor.
pub open spec fn sync_all(st: SyncState, ds: Seq<BackendPeer>) -> (SyncState, Seq<SyncOutcome>)
    decreases ds.len(),
{
    if ds.len() == 0 {
        (st, Seq::empty())
    } else {
        let prev = sync_all(st, ds.drop_last());
        let next = sync_step(prev.0, ds.last());
        (next.0, prev.1.push(next.1))
    }
}

fn text_or_default(o: &Option<String>, d: &str) -> (r: String)
    ensures
        r@ == text_or(*o, d@),
{
    match o {
        Some(s) => s.clone(),
        None => d.to_owned(),
    }
}

fn fields_for(d: &BackendPeer, ep: &Endpoint) -> (r: PeerFields)
    ensures
        r@ == descriptor_fields(*d, ep.host@, ep.port),
{
    PeerFields {
        name: d.name.clone(),
        host: ep.host.clone(),
        port: ep.port,
        protocol: text_or_default(&d.protocol, "tcp"),
        network_name: text_or_default(&d.network_name, "default"),
        network_secret: match &d.network_secret {
            Some(s) => s.clone(),
            None => String::new(),
        },
    }
}

fn request_for(d: &BackendPeer, ep: &Endpoint) -> (r: CreateNodeRequest)
    ensures
        r@ == descriptor_request(*d, ep.host@, ep.port),
{
    CreateNodeRequest {
        name: d.name.clone(),
        host: ep.host.clone(),
        port: ep.port,
        protocol: text_or_default(&d.protocol, "tcp"),
        description: Some("Auto-added from backend".to_owned()),
        max_connections: 100,
        allow_relay: match d.allow_relay {
            Some(b) => b,
            None => true,
        },
        network_name: text_or_default(&d.network_name, "default"),
        network_secret: copy_text(&d.network_secret),
        qq_number: None,
        wechat: None,
        mail: None,
    }
}

/// Merges one descriptor; see [`sync_step`].
pub fn sync_one(
    store: &mut PeerStore,
    registry: &mut HealthRegistry,
    cache: &mut PeerMetadataCache,
    d: &BackendPeer,
) -> (r: SyncOutcome)
    requires
        old(store).wf(),
        old(registry).wf(),
    ensures
        final(store).wf(),
        final(registry).wf(),
        final(registry)@.entries == old(registry)@.entries,
        final(registry)@.clock == old(registry)@.clock,
        (SyncState { store: final(store)@, reload: final(registry)@.reload, cache: final(cache)@ }, r)
            == sync_step(
            SyncState { store: old(store)@, reload: old(registry)@.reload, cache: old(cache)@ },
            *d,
        ),
{
    let ghost st = SyncState { store: store@, reload: registry@.reload, cache: cache@ };
    let ep = match d.endpoint() {
        None => {
            return SyncOutcome::Skipped;
        },
        Some(ep) => ep,
    };
    match store.position_of_backend_id(d.id) {
        Some(i) => {
            let fields = fields_for(d, &ep);
            let p = &store.records()[i];
            let local_id = p.id;
            let same_name = p.name == fields.name;
            let same_link = p.host == fields.host && p.port == fields.port && p.protocol
                == fields.protocol && p.network_name == fields.network_name && p.network_secret
                == fields.network_secret;
            let ghost r = st.store.records[i as int];
            assert(p@ == r);
            assert(same_link == !connection_changed(r, fields@));
            proof {
                let j = crate::store::id_index(st.store.records, local_id);
                assert(st.store.records[j].id == local_id);
                assert(st.store.records[i as int].id == local_id);
                assert(crate::store::model_wf(st.store));
                assert(j == i);
            }
            if !(same_name && same_link) {
                let _ = store.update(local_id, &fields);
                if !same_link {
                    registry.invalidate(local_id);
                }
            }
            cache.put(local_id, d.copied());
            if same_name && same_link {
                SyncOutcome::Unchanged(local_id)
            } else if !same_link {
                SyncOutcome::Reloaded(local_id)
            } else {
                SyncOutcome::Updated(local_id)
            }
        },
        None => {
            let req = request_for(d, &ep);
            match store.create(&req, Some(d.id), true) {
                Ok(id) => {
                    cache.put(id, d.copied());
                    SyncOutcome::Created(id)
                },
                Err(e) => SyncOutcome::Failed(e),
            }
        },
    }
}

/// Merges a fetched batch into the peer table, in order, one descriptor at a
/// time: a descriptor that fails does not stop the ones after it.
pub fn reconcile(
    store: &mut PeerStore,
    registry: &mut HealthRegistry,
    cache: &mut PeerMetadataCache,
    descriptors: &Vec<BackendPeer>,
) -> (r: Vec<SyncOutcome>)
    requires
        old(store).wf(),
        old(registry).wf(),
    ensures
        final(store).wf(),
        final(registry).wf(),
        final(registry)@.entries == old(registry)@.entries,
        final(registry)@.clock == old(registry)@.clock,
        (SyncState { store: final(store)@, reload: final(registry)@.reload, cache: final(cache)@ }, r@)
            == sync_all(
            SyncState { store: old(store)@, reload: old(registry)@.reload, cache: old(cache)@ },
            descriptors@,
        ),
{
    let ghost start = SyncState { store: store@, reload: registry@.reload, cache: cache@ };
    let mut out: Vec<SyncOutcome> = Vec::new();
    let mut i: usize = 0;
    while i < descriptors.len()
        invariant
            i <= descriptors@.len(),
            store.wf(),
            registry.wf(),
            registry@.entries == old(registry)@.entries,
            registry@.clock == old(registry)@.clock,
            start == (SyncState { store: old(store)@, reload: old(registry)@.reload, cache: old(cache)@ }),
            (SyncState { store: store@, reload: registry@.reload, cache: cache@ }, out@) == sync_all(
                start,
                descriptors@.subrange(0, i as int),
            ),
        decreases descriptors@.len() - i,
    {
        let o = sync_one(store, registry, cache, &descriptors[i]);
        out.push(o);
        proof {
            let next = descriptors@.subrange(0, i + 1);
            assert(next.drop_last() =~= descriptors@.subrange(0, i as int));
            assert(next.last() == descriptors@[i as int]);
        }
        i = i + 1;
    }
    assert(descriptors@.subrange(0, i as int) =~= descriptors@);
    out
}

/// One descriptor keeps the table well formed.
pub proof fn lemma_step_keeps_wf(st: SyncState, d: BackendPeer)
    requires
        model_wf(st.store),
    ensures
        model_wf(sync_step(st, d).0.store),
        sync_step(st, d).0.store.next_id >= st.store.next_id,
{
    let rs = st.store.records;
    let ns = sync_step(st, d).0.store;
    if let Some(ep) = spec_endpoint(d) {
        if has_backend_id(rs, d.id) {
            let i = backend_index(rs, d.id);
            assert(0 <= i < rs.len() && rs[i].backend_id == Some(d.id));
            let f = descriptor_fields(d, ep.0, ep.1);
            let nr = with_fields(rs[i], f);
            assert(nr.id == rs[i].id && nr.backend_id == rs[i].backend_id);
            let us = rs.update(i, nr);
            assert forall|a: int| 0 <= a < us.len() implies #[trigger] us[a].id == rs[a].id
                && us[a].backend_id == rs[a].backend_id by {}
            assert(model_wf(StoreModel { records: us, next_id: st.store.next_id })) by {
                assert forall|a: int, b: int|
                    0 <= a < us.len() && 0 <= b < us.len() && a != b implies #[trigger] us[a].id
                    != #[trigger] us[b].id by {
                    assert(rs[a].id != rs[b].id);
                }
                assert forall|a: int, b: int|
                    0 <= a < us.len() && 0 <= b < us.len() && a != b && (#[trigger] us[a]).backend_id is Some
                        implies us[a].backend_id != (#[trigger] us[b]).backend_id by {
                    assert(rs[a].backend_id == us[a].backend_id);
                    assert(rs[b].backend_id == us[b].backend_id);
                    assert(rs[a].backend_id != rs[b].backend_id);
                }
                assert forall|a: int| 0 <= a < us.len() implies 0 < #[trigger] us[a].id
                    < st.store.next_id by {
                    assert(us[a].id == rs[a].id);
                }
            }
        } else {
            let req = descriptor_request(d, ep.0, ep.1);
            if let Ok(id) = create_outcome(st.store, req, Some(d.id)) {
                let nr = created_record(id, req, Some(d.id), true);
                let ps = rs.push(nr);
                assert(id == st.store.next_id && id < i32::MAX);
                assert forall|a: int| 0 <= a < ps.len() implies 0 < #[trigger] ps[a].id < id + 1 by {
                    if a < rs.len() {
                        assert(ps[a] == rs[a]);
                    }
                }
                assert forall|a: int, b: int|
                    0 <= a < ps.len() && 0 <= b < ps.len() && a != b implies #[trigger] ps[a].id
                    != #[trigger] ps[b].id by {
                    if a < rs.len() && b < rs.len() {
                        assert(ps[a] == rs[a] && ps[b] == rs[b]);
                    } else if a < rs.len() {
                        assert(ps[a] == rs[a]);
                    } else {
                        assert(ps[b] == rs[b]);
                    }
                }
                assert forall|a: int, b: int|
                    0 <= a < ps.len() && 0 <= b < ps.len() && a != b && (#[trigger] ps[a]).backend_id is Some
                        implies ps[a].backend_id != (#[trigger] ps[b]).backend_id by {
                    if a < rs.len() && b < rs.len() {
                        assert(ps[a] == rs[a] && ps[b] == rs[b]);
                    } else if a < rs.len() {
                        assert(ps[a] == rs[a]);
                    } else {
                        assert(ps[b] == rs[b]);
                    }
                }
            }
        }
    }
}

/// A whole batch keeps the table well formed: in particular no two records
/// ever share a backend identity, and no two share a local id.
pub proof fn lemma_sync_keeps_wf(st: SyncState, ds: Seq<BackendPeer>)
    requires
        model_wf(st.store),
    ensures
        model_wf(sync_all(st, ds).0.store),
    decreases ds.len(),
{
    if ds.len() > 0 {
        lemma_sync_keeps_wf(st, ds.drop_last());
        lemma_step_keeps_wf(sync_all(st, ds.drop_last()).0, ds.last());
    }
}

/// Reconciliation never deletes: every record that was in the table is still
/// there afterwards, at its place, with its local id and backend identity, so
/// the table never shrinks.
pub proof fn lemma_sync_never_deletes(st: SyncState, ds: Seq<BackendPeer>)
    ensures
        sync_all(st, ds).0.store.records.len() >= st.store.records.len(),
        forall|i: int|
            0 <= i < st.store.records.len() ==> (#[trigger] sync_all(st, ds).0.store.records[i]).id
                == st.store.records[i].id && sync_all(st, ds).0.store.records[i].backend_id
                == st.store.records[i].backend_id,
    decreases ds.len(),
{
    if ds.len() > 0 {
        let prev = sync_all(st, ds.drop_last()).0;
        lemma_sync_never_deletes(st, ds.drop_last());
        let d = ds.last();
        let rs = prev.store.records;
        let ns = sync_step(prev, d).0.store.records;
        assert(ns.len() >= rs.len());
        assert forall|i: int| 0 <= i < rs.len() implies #[trigger] ns[i].id == rs[i].id
            && ns[i].backend_id == rs[i].backend_id by {}
        assert forall|i: int| 0 <= i < st.store.records.len() implies (#[trigger] ns[i]).id
            == st.store.records[i].id && ns[i].backend_id == st.store.records[i].backend_id by {
            assert(rs[i].id == st.store.records[i].id);
        }
    }
}

/// A descriptor whose backend identity already has a record never adds a
/// second one.
pub proof fn lemma_known_identity_adds_no_record(st: SyncState, d: BackendPeer)
    requires
        has_backend_id(st.store.records, d.id),
    ensures
        sync_step(st, d).0.store.records.len() == st.store.records.len(),
        !(sync_step(st, d).1 is Created),
{
}

/// A known peer whose namespace secret changed is updated to the new secret and
/// gets exactly one reload request.
pub proof fn lemma_secret_change_reloads(st: SyncState, d: BackendPeer)
    requires
        model_wf(st.store),
        has_backend_id(st.store.records, d.id),
        spec_endpoint(d) is Some,
        text_or(d.network_secret, Seq::empty()) != st.store.records[backend_index(
            st.store.records,
            d.id,
        )].network_secret,
    ensures
        ({
            let i = backend_index(st.store.records, d.id);
            let id = st.store.records[i].id;
            let after = sync_all(st, seq![d]);
            &&& after.1 == seq![SyncOutcome::Reloaded(id)]
            &&& after.0.reload == st.reload.insert(id)
            &&& after.0.store.records[i].network_secret == text_or(d.network_secret, Seq::empty())
            &&& after.0.store.records[i].id == id
        }),
{
    let ds = seq![d];
    assert(ds.drop_last() =~= Seq::<BackendPeer>::empty());
    assert(ds.last() == d);
    assert(sync_all(st, ds.drop_last()) == (st, Seq::<SyncOutcome>::empty()));
    assert(Seq::<SyncOutcome>::empty().push(sync_step(st, d).1) =~= seq![sync_step(st, d).1]);
}

/// A batch split in two is the first part followed by the second.
pub proof fn lemma_sync_append(st: SyncState, a: Seq<BackendPeer>, b: Seq<BackendPeer>)
    ensures
        sync_all(st, a + b).0 == sync_all(sync_all(st, a).0, b).0,
        sync_all(st, a + b).1 == sync_all(st, a).1 + sync_all(sync_all(st, a).0, b).1,
    decreases b.len(),
{
    if b.len() == 0 {
        assert(a + b =~= a);
        assert(sync_all(st, a).1 + Seq::<SyncOutcome>::empty() =~= sync_all(st, a).1);
    } else {
        assert((a + b).drop_last() =~= a + b.drop_last());
        assert((a + b).last() == b.last());
        lemma_sync_append(st, a, b.drop_last());
        let mid = sync_all(st, a);
        let rest = sync_all(mid.0, b.drop_last());
        let step = sync_step(rest.0, b.last());
        assert(mid.1 + rest.1.push(step.1) =~= (mid.1 + rest.1).push(step.1));
    }
}

/// A descriptor without any address is skipped: it stores nothing, and the
/// descriptors after it are merged exactly as if it had not been in the batch.
pub proof fn lemma_missing_address_skipped(
    st: SyncState,
    before: Seq<BackendPeer>,
    d: BackendPeer,
    after: Seq<BackendPeer>,
)
    requires
        d.host is None,
        d.public_ip is None,
    ensures
        sync_step(st, d) == (st, SyncOutcome::Skipped),
        sync_all(st, before.push(d) + after).0 == sync_all(st, before + after).0,
        sync_all(st, before.push(d) + after).1 == sync_all(st, before).1.push(SyncOutcome::Skipped)
            + sync_all(sync_all(st, before).0, after).1,
{
    lemma_sync_append(st, before.push(d), after);
    lemma_sync_append(st, before, after);
    assert(before.push(d).drop_last() =~= before);
    assert(before.push(d).last() == d);
}

/// Nothing left to do for `d`: its record already holds what it asks for, or
/// its record cannot be created.
pub open spec fn settled(m: StoreModel, d: BackendPeer) -> bool {
    match spec_endpoint(d) {
        None => true,
        Some(ep) => if has_backend_id(m.records, d.id) {
            fields_match(
                m.records[backend_index(m.records, d.id)],
                descriptor_fields(d, ep.0, ep.1),
            )
        } else {
            create_outcome(m, descriptor_request(d, ep.0, ep.1), Some(d.id)) is Err
        },
    }
}

/// An outcome that changes nothing.
pub open spec fn quiet(o: SyncOutcome) -> bool {
    o is Skipped || o is Unchanged || o is Failed
}

pub open spec fn distinct_identities(ds: Seq<BackendPeer>) -> bool {
    forall|i: int, j: int| 0 <= i < ds.len() && 0 <= j < ds.len() && i != j ==> #[trigger] ds[i].id != #[trigger] ds[j].id
}

proof fn lemma_settled_step_is_quiet(st: SyncState, d: BackendPeer)
    requires
        settled(st.store, d),
    ensures
        sync_step(st, d).0.store == st.store,
        sync_step(st, d).0.reload == st.reload,
        quiet(sync_step(st, d).1),
{
}

/// Uniqueness of backend identities pins down the index that `backend_index` picks.
proof fn lemma_backend_index_is(m: StoreModel, key: i32, i: int)
    requires
        model_wf(m),
        0 <= i < m.records.len(),
        m.records[i].backend_id == Some(key),
    ensures
        has_backend_id(m.records, key),
        backend_index(m.records, key) == i,
{
    let c = backend_index(m.records, key);
    assert(m.records[c].backend_id == Some(key));
}

proof fn lemma_step_settles_itself(st: SyncState, d: BackendPeer)
    requires
        model_wf(st.store),
    ensures
        settled(sync_step(st, d).0.store, d),
{
    lemma_step_keeps_wf(st, d);
    let ns = sync_step(st, d).0.store;
    let rs = st.store.records;
    if let Some(ep) = spec_endpoint(d) {
        if has_backend_id(rs, d.id) {
            let i = backend_index(rs, d.id);
            assert(ns.records[i].backend_id == Some(d.id));
            lemma_backend_index_is(ns, d.id, i);
        } else {
            let req = descriptor_request(d, ep.0, ep.1);
            if let Ok(id) = create_outcome(st.store, req, Some(d.id)) {
                let last = rs.len() as int;
                assert(ns.records[last].backend_id == Some(d.id));
                lemma_backend_index_is(ns, d.id, last);
                let r = ns.records[last];
                let f = descriptor_fields(d, ep.0, ep.1);
                assert(r.network_secret == f.network_secret);
            }
        }
    }
}

/// Merging `d` leaves every other identity's settledness as it was.
proof fn lemma_step_keeps_settled(st: SyncState, d: BackendPeer, e: BackendPeer)
    requires
        model_wf(st.store),
        d.id != e.id,
        settled(st.store, e),
    ensures
        settled(sync_step(st, d).0.store, e),
{
    lemma_step_keeps_wf(st, d);
    let ns = sync_step(st, d).0.store;
    let rs = st.store.records;
    if let Some(epe) = spec_endpoint(e) {
        if let Some(ep) = spec_endpoint(d) {
            let grew = !has_backend_id(rs, d.id) && create_outcome(
                st.store,
                descriptor_request(d, ep.0, ep.1),
                Some(d.id),
            ) is Ok;
            // Every old record keeps its place, local id and backend identity.
            assert forall|a: int| 0 <= a < rs.len() implies #[trigger] ns.records[a].backend_id
                == rs[a].backend_id && ns.records[a].id == rs[a].id by {}
            if has_backend_id(rs, e.id) {
                let j = backend_index(rs, e.id);
                assert(rs[j].backend_id == Some(e.id));
                assert(ns.records[j].backend_id == Some(e.id));
                lemma_backend_index_is(ns, e.id, j);
                if has_backend_id(rs, d.id) {
                    let i = backend_index(rs, d.id);
                    assert(i != j);
                    assert(ns.records[j] == rs[j]);
                } else {
                    assert(ns.records[j] == rs[j]);
                }
            } else {
                assert(!has_backend_id(ns.records, e.id)) by {
                    if has_backend_id(ns.records, e.id) {
                        let k = choose|k: int| 0 <= k < ns.records.len() && ns.records[k].backend_id == Some(e.id);
                        if k < rs.len() {
                            assert(rs[k].backend_id == Some(e.id));
                        }
                    }
                }
            }
        }
    }
}

/// After a batch with distinct identities, each of its descriptors is settled.
proof fn lemma_sync_settles(st: SyncState, ds: Seq<BackendPeer>)
    requires
        model_wf(st.store),
        distinct_identities(ds),
    ensures
        forall|k: int| 0 <= k < ds.len() ==> settled(sync_all(st, ds).0.store, #[trigger] ds[k]),
    decreases ds.len(),
{
    if ds.len() > 0 {
        let pre = ds.drop_last();
        assert(distinct_identities(pre)) by {
            assert forall|i: int, j: int| 0 <= i < pre.len() && 0 <= j < pre.len() && i != j implies #[trigger] pre[i].id != #[trigger] pre[j].id by {
                assert(pre[i] == ds[i] && pre[j] == ds[j]);
            }
        }
        lemma_sync_settles(st, pre);
        lemma_sync_keeps_wf(st, pre);
        let mid = sync_all(st, pre).0;
        lemma_step_settles_itself(mid, ds.last());
        assert forall|k: int| 0 <= k < ds.len() implies settled(sync_all(st, ds).0.store, #[trigger] ds[k]) by {
            if k < pre.len() {
                assert(pre[k] == ds[k]);
                assert(ds[k].id != ds[ds.len() - 1].id);
                lemma_step_keeps_settled(mid, ds.last(), ds[k]);
            }
        }
    }
}

/// A batch of settled descriptors changes neither the table nor the reload requests.
proof fn lemma_settled_batch_is_quiet(st: SyncState, ds: Seq<BackendPeer>)
    requires
        forall|k: int| 0 <= k < ds.len() ==> settled(st.store, #[trigger] ds[k]),
    ensures
        sync_all(st, ds).0.store == st.store,
        sync_all(st, ds).0.reload == st.reload,
        forall|k: int| 0 <= k < sync_all(st, ds).1.len() ==> quiet(#[trigger] sync_all(st, ds).1[k]),
        sync_all(st, ds).1.len() == ds.len(),
    decreases ds.len(),
{
    if ds.len() > 0 {
        let pre = ds.drop_last();
        assert forall|k: int| 0 <= k < pre.len() implies settled(st.store, #[trigger] pre[k]) by {
            assert(pre[k] == ds[k]);
        }
        lemma_settled_batch_is_quiet(st, pre);
        let mid = sync_all(st, pre);
        assert(settled(mid.0.store, ds[ds.len() - 1]));
        lemma_settled_step_is_quiet(mid.0, ds.last());
        let outs = sync_all(st, ds).1;
        assert forall|k: int| 0 <= k < outs.len() implies quiet(#[trigger] outs[k]) by {
            if k < mid.1.len() {
                assert(outs[k] == mid.1[k]);
            }
        }
    }
}

/// Reconciling the same list twice: the second pass creates no record, changes
/// no record and requests no reload. The list's backend identities must be
/// distinct (with two descriptors for one identity, each pass ends on the
/// last one's fields, so the first of them finds a difference again).
pub proof fn lemma_sync_idempotent(st: SyncState, ds: Seq<BackendPeer>)
    requires
        model_wf(st.store),
        distinct_identities(ds),
    ensures
        ({
            let first = sync_all(st, ds).0;
            let second = sync_all(first, ds);
            &&& second.0.store == first.store
            &&& second.0.reload == first.reload
            &&& forall|k: int| 0 <= k < second.1.len() ==> quiet(#[trigger] second.1[k])
        }),
{
    lemma_sync_settles(st, ds);
    lemma_settled_batch_is_quiet(sync_all(st, ds).0, ds);
}

} // verus!
