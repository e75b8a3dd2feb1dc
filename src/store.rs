//! The local peer table: every peer the probe knows, keyed by a local id and
//! correlated with the backend identity it came from.

use vstd::prelude::*;
use crate::request::{CreateNodeRequest, InvalidField, RequestModel, first_invalid, text_view};

verus! {

/// A locally known peer.
#[derive(Debug, Clone, PartialEq, Eq)]
pub struct LocalPeer {
    pub id: i32,
    /// The backend identity this record was created from; set once, never changed.
    pub backend_id: Option<i32>,
    pub name: String,
    pub host: String,
    pub port: i32,
    pub protocol: String,
    pub description: Option<String>,
    pub max_connections: i32,
    pub allow_relay: bool,
    pub network_name: String,
    pub network_secret: String,
    pub is_approved: bool,
}

/// The mathematical value of a [`LocalPeer`].
pub struct PeerRecord {
    pub id: i32,
    pub backend_id: Option<i32>,
    pub name: Seq<char>,
    pub host: Seq<char>,
    pub port: i32,
    pub protocol: Seq<char>,
    pub description: Option<Seq<char>>,
    pub max_connections: i32,
    pub allow_relay: bool,
    pub network_name: Seq<char>,
    pub network_secret: Seq<char>,
    pub is_approved: bool,
}

impl View for LocalPeer {
    type V = PeerRecord;

    open spec fn view(&self) -> PeerRecord {
        PeerRecord {
            id: self.id,
            backend_id: self.backend_id,
            name: self.name@,
            host: self.host@,
            port: self.port,
            protocol: self.protocol@,
            description: text_view(self.description),
            max_connections: self.max_connections,
            allow_relay: self.allow_relay,
            network_name: self.network_name@,
            network_secret: self.network_secret@,
            is_approved: self.is_approved,
        }
    }
}

/// The fields that the backend owns and that an update rewrites.
#[derive(Debug, Clone, PartialEq, Eq)]
pub struct PeerFields {
    pub name: String,
    pub host: String,
    pub port: i32,
    pub protocol: String,
    pub network_name: String,
    pub network_secret: String,
}

/// The mathematical value of [`PeerFields`].
pub struct FieldsModel {
    pub name: Seq<char>,
    pub host: Seq<char>,
    pub port: i32,
    pub protocol: Seq<char>,
    pub network_name: Seq<char>,
    pub network_secret: Seq<char>,
}

impl View for PeerFields {
    type V = FieldsModel;

    open spec fn view(&self) -> FieldsModel {
        FieldsModel {
            name: self.name@,
            host: self.host@,
            port: self.port,
            protocol: self.protocol@,
            network_name: self.network_name@,
            network_secret: self.network_secret@,
        }
    }
}

/// A record with the backend-owned fields replaced.
pub open spec fn with_fields(r: PeerRecord, f: FieldsModel) -> PeerRecord {
    PeerRecord {
        name: f.name,
        host: f.host,
        port: f.port,
        protocol: f.protocol,
        network_name: f.network_name,
        network_secret: f.network_secret,
        ..r
    }
}

/// The record that a creation request yields.
pub open spec fn created_record(
    id: i32,
    req: RequestModel,
    backend_id: Option<i32>,
    approved: bool,
) -> PeerRecord {
    PeerRecord {
        id,
        backend_id,
        name: req.name,
        host: req.host,
        port: req.port,
        protocol: req.protocol,
        description: req.description,
        max_connections: req.max_connections,
        allow_relay: req.allow_relay,
        network_name: req.network_name,
        network_secret: match req.network_secret {
            Some(s) => s,
            None => Seq::empty(),
        },
        is_approved: approved,
    }
}

/// Contents of the table, in order of insertion, and the next local id to hand out.
pub struct StoreModel {
    pub records: Seq<PeerRecord>,
    pub next_id: i32,
}

/// Why the table refused a change.
#[derive(Debug, Clone, Copy, PartialEq, Eq, Structural)]
pub enum StoreError {
    Invalid(InvalidField),
    DuplicateId,
    DuplicateBackendId,
    IdsExhausted,
    InvalidId,
    NotFound,
}

/// What creating a record from `req` does to a table in state `m`.
pub open spec fn create_outcome(m: StoreModel, req: RequestModel, backend_id: Option<i32>) -> Result<
    i32,
    StoreError,
> {
    if first_invalid(req) is Some {
        Err(StoreError::Invalid(first_invalid(req)->0))
    } else if backend_id is Some && has_backend_id(m.records, backend_id->0) {
        Err(StoreError::DuplicateBackendId)
    } else if m.next_id == i32::MAX {
        Err(StoreError::IdsExhausted)
    } else {
        Ok(m.next_id)
    }
}

/// What restoring a saved record does to a table in state `m`.
pub open spec fn restore_outcome(m: StoreModel, p: PeerRecord) -> Result<(), StoreError> {
    if !(0 < p.id < i32::MAX) {
        Err(StoreError::InvalidId)
    } else if has_id(m.records, p.id) {
        Err(StoreError::DuplicateId)
    } else if p.backend_id is Some && has_backend_id(m.records, p.backend_id->0) {
        Err(StoreError::DuplicateBackendId)
    } else {
        Ok(())
    }
}

pub open spec fn has_id(rs: Seq<PeerRecord>, id: i32) -> bool {
    exists|i: int| 0 <= i < rs.len() && rs[i].id == id
}

pub open spec fn has_backend_id(rs: Seq<PeerRecord>, key: i32) -> bool {
    exists|i: int| 0 <= i < rs.len() && rs[i].backend_id == Some(key)
}

/// Position of the record with local id `id` (meaningful when there is one).
pub open spec fn id_index(rs: Seq<PeerRecord>, id: i32) -> int {
    choose|i: int| 0 <= i < rs.len() && rs[i].id == id
}

/// Position of the record correlated with backend identity `key` (meaningful when there is one).
pub open spec fn backend_index(rs: Seq<PeerRecord>, key: i32) -> int {
    choose|i: int| 0 <= i < rs.len() && rs[i].backend_id == Some(key)
}

/// Local ids are positive, below `next_id` and distinct; backend identities are distinct.
pub open spec fn model_wf(m: StoreModel) -> bool {
    &&& 1 <= m.next_id
    &&& forall|i: int| 0 <= i < m.records.len() ==> 0 < #[trigger] m.records[i].id < m.next_id
    &&& forall|i: int, j: int|
        0 <= i < m.records.len() && 0 <= j < m.records.len() && i != j ==> #[trigger] m.records[i].id
            != #[trigger] m.records[j].id
    &&& forall|i: int, j: int|
        0 <= i < m.records.len() && 0 <= j < m.records.len() && i != j
            && (#[trigger] m.records[i]).backend_id is Some ==> m.records[i].backend_id
            != (#[trigger] m.records[j]).backend_id
}

/// The local peer table.
pub struct PeerStore {
    records: Vec<LocalPeer>,
    next_id: i32,
}

impl View for PeerStore {
    type V = StoreModel;

    closed spec fn view(&self) -> StoreModel {
        StoreModel { records: self.records@.map_values(|p: LocalPeer| p@), next_id: self.next_id }
    }
}

impl PeerStore {
    pub open spec fn wf(&self) -> bool {
        model_wf(self@)
    }

    /// An empty table whose first local id is 1.
    pub fn new() -> (s: PeerStore)
        ensures
            s.wf(),
            s@.records.len() == 0,
            s@.next_id == 1,
    {
        let s = PeerStore { records: Vec::new(), next_id: 1 };
        assert(s@.records =~= Seq::<PeerRecord>::empty());
        s
    }

    pub fn len(&self) -> (n: usize)
        ensures
            n == self@.records.len(),
    {
        self.records.len()
    }

    /// The records, in order of insertion.
    pub fn records(&self) -> (r: &Vec<LocalPeer>)
        ensures
            r@.len() == self@.records.len(),
            forall|i: int| 0 <= i < r@.len() ==> (#[trigger] r@[i])@ == self@.records[i],
    {
        &self.records
    }

    /// Position of the record with local id `id`.
    pub fn position_of_id(&self, id: i32) -> (r: Option<usize>)
        requires
            self.wf(),
        ensures
            r is Some <==> has_id(self@.records, id),
            r matches Some(i) ==> i == id_index(self@.records, id) && self@.records[i as int].id
                == id,
    {
        let mut i: usize = 0;
        while i < self.records.len()
            invariant
                self.wf(),
                i <= self.records@.len(),
                forall|j: int| 0 <= j < i ==> (#[trigger] self.records@[j]).id != id,
            decreases self.records@.len() - i,
        {
            if self.records[i].id == id {
                proof {
                    assert(self@.records[i as int].id == id);
                    let c = id_index(self@.records, id);
                    assert(self@.records[c].id == id);
                    assert(c == i) by {
                        assert(self@.records[c].id == self@.records[i as int].id);
                    }
                }
                return Some(i);
            }
            i = i + 1;
        }
        assert forall|j: int| 0 <= j < self@.records.len() implies self@.records[j].id != id by {
            assert(self.records@[j]@ == self@.records[j]);
        }
        None
    }

    /// Position of the record correlated with backend identity `key`.
    pub fn position_of_backend_id(&self, key: i32) -> (r: Option<usize>)
        requires
            self.wf(),
        ensures
            r is Some <==> has_backend_id(self@.records, key),
            r matches Some(i) ==> i == backend_index(self@.records, key)
                && self@.records[i as int].backend_id == Some(key),
    {
        let mut i: usize = 0;
        while i < self.records.len()
            invariant
                self.wf(),
                i <= self.records@.len(),
                forall|j: int| 0 <= j < i ==> (#[trigger] self.records@[j]).backend_id != Some(key),
            decreases self.records@.len() - i,
        {
            if self.records[i].backend_id == Some(key) {
                proof {
                    assert(self@.records[i as int].backend_id == Some(key));
                    let c = backend_index(self@.records, key);
                    assert(self@.records[c].backend_id == Some(key));
                    assert(c == i) by {
                        assert(self@.records[c].backend_id == self@.records[i as int].backend_id);
                    }
                }
                return Some(i);
            }
            i = i + 1;
        }
        assert forall|j: int| 0 <= j < self@.records.len() implies self@.records[j].backend_id
            != Some(key) by {
            assert(self.records@[j]@ == self@.records[j]);
        }
        None
    }

    /// The record with local id `id`.
    pub fn get(&self, id: i32) -> (r: Option<&LocalPeer>)
        requires
            self.wf(),
        ensures
            r is Some <==> has_id(self@.records, id),
            r matches Some(p) ==> p@ == self@.records[id_index(self@.records, id)],
    {
        match self.position_of_id(id) {
            Some(i) => Some(&self.records[i]),
            None => None,
        }
    }

    /// The record correlated with backend identity `key`.
    pub fn get_by_backend_id(&self, key: i32) -> (r: Option<&LocalPeer>)
        requires
            self.wf(),
        ensures
            r is Some <==> has_backend_id(self@.records, key),
            r matches Some(p) ==> p@ == self@.records[backend_index(self@.records, key)],
    {
        match self.position_of_backend_id(key) {
            Some(i) => Some(&self.records[i]),
            None => None,
        }
    }

    /// Adds a record built from `req`, under the next local id. Refused when the
    /// request breaks a field rule, when `backend_id` already has a record, or
    /// when local ids have run out.
    pub fn create(&mut self, req: &CreateNodeRequest, backend_id: Option<i32>, approved: bool) -> (r:
        Result<i32, StoreError>)
        requires
            old(self).wf(),
        ensures
            final(self).wf(),
            r == create_outcome(old(self)@, req@, backend_id),
            r is Ok ==> final(self)@ == (StoreModel {
                records: old(self)@.records.push(
                    created_record(old(self)@.next_id, req@, backend_id, approved),
                ),
                next_id: (old(self)@.next_id + 1) as i32,
            }),
            r is Err ==> final(self)@ == old(self)@,
    {
        if let Err(f) = req.validate() {
            return Err(StoreError::Invalid(f));
        }
        if let Some(k) = backend_id {
            if self.position_of_backend_id(k).is_some() {
                return Err(StoreError::DuplicateBackendId);
            }
        }
        if self.next_id == i32::MAX {
            return Err(StoreError::IdsExhausted);
        }
        let id = self.next_id;
        let secret = match &req.network_secret {
            Some(s) => s.clone(),
            None => String::new(),
        };
        let peer = LocalPeer {
            id,
            backend_id,
            name: req.name.clone(),
            host: req.host.clone(),
            port: req.port,
            protocol: req.protocol.clone(),
            description: crate::wire::copy_text(&req.description),
            max_connections: req.max_connections,
            allow_relay: req.allow_relay,
            network_name: req.network_name.clone(),
            network_secret: secret,
            is_approved: approved,
        };
        let ghost before = self@;
        assert(peer@ == created_record(id, req@, backend_id, approved));
        self.records.push(peer);
        self.next_id = id + 1;
        assert(self@.records =~= before.records.push(peer@));
        proof {
            let rs = self@.records;
            assert forall|i: int, j: int|
                0 <= i < rs.len() && 0 <= j < rs.len() && i != j
                    && (#[trigger] rs[i]).backend_id is Some implies rs[i].backend_id
                != (#[trigger] rs[j]).backend_id by {
                if i == rs.len() - 1 {
                    assert(before.records[j] == rs[j]);
                } else if j == rs.len() - 1 {
                    assert(before.records[i] == rs[i]);
                }
            }
        }
        Ok(id)
    }

    /// Rewrites the backend-owned fields of the record with local id `id`.
    pub fn update(&mut self, id: i32, fields: &PeerFields) -> (r: Result<(), StoreError>)
        requires
            old(self).wf(),
        ensures
            final(self).wf(),
            r is Ok <==> has_id(old(self)@.records, id),
            r is Ok ==> final(self)@ == (StoreModel {
                records: old(self)@.records.update(
                    id_index(old(self)@.records, id),
                    with_fields(old(self)@.records[id_index(old(self)@.records, id)], fields@),
                ),
                next_id: old(self)@.next_id,
            }),
            r is Err ==> r == Err::<(), StoreError>(StoreError::NotFound) && final(self)@ == old(
                self,
            )@,
    {
        match self.position_of_id(id) {
            None => Err(StoreError::NotFound),
            Some(i) => {
                let ghost before = self@;
                let old_peer = &self.records[i];
                let peer = LocalPeer {
                    id: old_peer.id,
                    backend_id: old_peer.backend_id,
                    name: fields.name.clone(),
                    host: fields.host.clone(),
                    port: fields.port,
                    protocol: fields.protocol.clone(),
                    description: crate::wire::copy_text(&old_peer.description),
                    max_connections: old_peer.max_connections,
                    allow_relay: old_peer.allow_relay,
                    network_name: fields.network_name.clone(),
                    network_secret: fields.network_secret.clone(),
                    is_approved: old_peer.is_approved,
                };
                assert(peer@ == with_fields(before.records[i as int], fields@));
                self.records.set(i, peer);
                assert(self@.records =~= before.records.update(i as int, peer@));
                Ok(())
            },
        }
    }

    /// Puts back a record saved earlier, keeping its local id; later ids are
    /// handed out above it.
    pub fn restore(&mut self, peer: LocalPeer) -> (r: Result<(), StoreError>)
        requires
            old(self).wf(),
        ensures
            final(self).wf(),
            r == restore_outcome(old(self)@, peer@),
            r is Ok ==> final(self)@.records == old(self)@.records.push(peer@) && final(self)@.next_id
                == if peer.id < old(self)@.next_id {
                old(self)@.next_id
            } else {
                (peer.id + 1) as i32
            },
            r is Err ==> final(self)@ == old(self)@,
    {
        if !(0 < peer.id && peer.id < i32::MAX) {
            return Err(StoreError::InvalidId);
        }
        if self.position_of_id(peer.id).is_some() {
            return Err(StoreError::DuplicateId);
        }
        if let Some(k) = peer.backend_id {
            if self.position_of_backend_id(k).is_some() {
                return Err(StoreError::DuplicateBackendId);
            }
        }
        let ghost before = self@;
        let ghost view = peer@;
        if peer.id >= self.next_id {
            self.next_id = peer.id + 1;
        }
        self.records.push(peer);
        assert(self@.records =~= before.records.push(view));
        proof {
            let rs = self@.records;
            assert forall|i: int, j: int|
                0 <= i < rs.len() && 0 <= j < rs.len() && i != j
                    && (#[trigger] rs[i]).backend_id is Some implies rs[i].backend_id
                != (#[trigger] rs[j]).backend_id by {
                if i == rs.len() - 1 {
                    assert(before.records[j] == rs[j]);
                } else if j == rs.len() - 1 {
                    assert(before.records[i] == rs[i]);
                }
            }
            assert forall|i: int, j: int|
                0 <= i < rs.len() && 0 <= j < rs.len() && i != j implies #[trigger] rs[i].id
                != #[trigger] rs[j].id by {
                if i == rs.len() - 1 {
                    assert(before.records[j] == rs[j]);
                } else if j == rs.len() - 1 {
                    assert(before.records[i] == rs[i]);
                }
            }
        }
        Ok(())
    }
}

} // verus!
