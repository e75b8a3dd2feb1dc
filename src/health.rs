//! The health registry: the latest probe outcome of each monitored peer, and the
//! peers whose connection parameters must be reloaded before their next probe.

use vstd::prelude::*;
use crate::wire::copy_text;

verus! {

#[derive(Debug, Clone, Copy, PartialEq, Eq, Structural)]
pub enum HealthStatus {
    Healthy,
    Unhealthy,
    Unknown,
}

/// What one probe of a peer found.
#[derive(Debug, Clone, PartialEq, Eq)]
pub enum ProbeOutcome {
    /// Answered after this many probe ticks (1000 ticks make a millisecond).
    Reachable { latency_ticks: u32 },
    Unreachable { error: String },
}

/// The latest probe outcome of one peer.
#[derive(Debug, Clone, PartialEq, Eq)]
pub struct HealthEntry {
    pub peer_id: i32,
    pub status: HealthStatus,
    pub latency_ticks: Option<u32>,
    pub error: Option<String>,
    /// Position of this outcome in the order of all recorded outcomes.
    pub observed: u64,
}

impl HealthEntry {
    /// An equal copy of the entry.
    pub fn copied(&self) -> (r: HealthEntry)
        ensures
            r == *self,
    {
        HealthEntry {
            peer_id: self.peer_id,
            status: self.status,
            latency_ticks: self.latency_ticks,
            error: copy_text(&self.error),
            observed: self.observed,
        }
    }
}

/// The marker after `clock`; it stays at the top once it gets there.
pub open spec fn next_tick(clock: u64) -> u64 {
    if clock < u64::MAX {
        (clock + 1) as u64
    } else {
        clock
    }
}

/// The entry that a probe outcome yields.
pub open spec fn probe_entry(peer_id: i32, outcome: ProbeOutcome, observed: u64) -> HealthEntry {
    match outcome {
        ProbeOutcome::Reachable { latency_ticks } => HealthEntry {
            peer_id,
            status: HealthStatus::Healthy,
            latency_ticks: Some(latency_ticks),
            error: None,
            observed,
        },
        ProbeOutcome::Unreachable { error } => HealthEntry {
            peer_id,
            status: HealthStatus::Unhealthy,
            latency_ticks: None,
            error: Some(error),
            observed,
        },
    }
}

pub struct RegistryModel {
    pub entries: Seq<HealthEntry>,
    pub clock: u64,
    pub reload: Set<i32>,
}

pub open spec fn tracks(es: Seq<HealthEntry>, id: i32) -> bool {
    exists|i: int| 0 <= i < es.len() && es[i].peer_id == id
}

pub open spec fn entry_index(es: Seq<HealthEntry>, id: i32) -> int {
    choose|i: int| 0 <= i < es.len() && es[i].peer_id == id
}

/// No peer has two entries, and no entry is newer than the clock.
pub open spec fn distinct_peers(es: Seq<HealthEntry>) -> bool {
    forall|i: int, j: int|
        0 <= i < es.len() && 0 <= j < es.len() && i != j ==> #[trigger] es[i].peer_id
            != #[trigger] es[j].peer_id
}

proof fn lemma_to_set_contains(s: Seq<i32>, x: i32)
    ensures
        s.to_set().contains(x) <==> exists|k: int| 0 <= k < s.len() && s[k] == x,
{
    if s.to_set().contains(x) {
        assert(s.contains(x));
    }
    if exists|k: int| 0 <= k < s.len() && s[k] == x {
        assert(s.contains(x));
    }
}

proof fn lemma_push_to_set(s: Seq<i32>, x: i32)
    ensures
        s.push(x).to_set() == s.to_set().insert(x),
{
    assert forall|y: i32| s.push(x).to_set().contains(y) <==> s.to_set().insert(x).contains(y) by {
        lemma_to_set_contains(s.push(x), y);
        lemma_to_set_contains(s, y);
        if exists|k: int| 0 <= k < s.push(x).len() && s.push(x)[k] == y {
            let k = choose|k: int| 0 <= k < s.push(x).len() && s.push(x)[k] == y;
            if k < s.len() {
                assert(s[k] == y);
            }
        }
        if exists|k: int| 0 <= k < s.len() && s[k] == y {
            let k = choose|k: int| 0 <= k < s.len() && s[k] == y;
            assert(s.push(x)[k] == y);
        }
        if y == x {
            assert(s.push(x)[s.len() as int] == x);
        }
    }
    assert(s.push(x).to_set() =~= s.to_set().insert(x));
}

proof fn lemma_remove_to_set(s: Seq<i32>, i: int)
    requires
        0 <= i < s.len(),
        s.no_duplicates(),
    ensures
        s.remove(i).to_set() == s.to_set().remove(s[i]),
        s.remove(i).no_duplicates(),
{
    let t = s.remove(i);
    assert forall|y: i32| t.to_set().contains(y) <==> s.to_set().remove(s[i]).contains(y) by {
        lemma_to_set_contains(t, y);
        lemma_to_set_contains(s, y);
        if exists|k: int| 0 <= k < t.len() && t[k] == y {
            let k = choose|k: int| 0 <= k < t.len() && t[k] == y;
            if k < i {
                assert(s[k] == y);
            } else {
                assert(s[k + 1] == y);
            }
        }
        if y != s[i] && exists|k: int| 0 <= k < s.len() && s[k] == y {
            let k = choose|k: int| 0 <= k < s.len() && s[k] == y;
            if k < i {
                assert(t[k] == y);
            } else {
                assert(t[k - 1] == y);
            }
        }
    }
    assert(t.to_set() =~= s.to_set().remove(s[i]));
    assert forall|a: int, b: int| 0 <= a < t.len() && 0 <= b < t.len() && a != b implies t[a] != t[b] by {
        let a2 = if a < i { a } else { a + 1 };
        let b2 = if b < i { b } else { b + 1 };
        assert(t[a] == s[a2] && t[b] == s[b2]);
    }
}

pub struct HealthRegistry {
    entries: Vec<HealthEntry>,
    clock: u64,
    reload: Vec<i32>,
}

impl View for HealthRegistry {
    type V = RegistryModel;

    closed spec fn view(&self) -> RegistryModel {
        RegistryModel { entries: self.entries@, clock: self.clock, reload: self.reload@.to_set() }
    }
}

impl HealthRegistry {
    pub closed spec fn wf(&self) -> bool {
        &&& distinct_peers(self.entries@)
        &&& self.reload@.no_duplicates()
    }

    pub fn new() -> (r: HealthRegistry)
        ensures
            r.wf(),
            r@.entries.len() == 0,
            r@.clock == 0,
            r@.reload.is_empty(),
    {
        let r = HealthRegistry { entries: Vec::new(), clock: 0, reload: Vec::new() };
        assert(r.reload@.to_set() =~= Set::<i32>::empty());
        r
    }

    fn position(&self, peer_id: i32) -> (r: Option<usize>)
        requires
            self.wf(),
        ensures
            r is Some <==> tracks(self@.entries, peer_id),
            r matches Some(i) ==> i == entry_index(self@.entries, peer_id),
    {
        let mut i: usize = 0;
        while i < self.entries.len()
            invariant
                self.wf(),
                i <= self.entries@.len(),
                forall|j: int| 0 <= j < i ==> (#[trigger] self.entries@[j]).peer_id != peer_id,
            decreases self.entries@.len() - i,
        {
            if self.entries[i].peer_id == peer_id {
                proof {
                    let c = entry_index(self@.entries, peer_id);
                    assert(self@.entries[c].peer_id == peer_id);
                }
                return Some(i);
            }
            i = i + 1;
        }
        None
    }

    /// Records a probe outcome, replacing the peer's earlier entry, and stamps it
    /// with the next marker.
    pub fn record_probe_result(&mut self, peer_id: i32, outcome: ProbeOutcome)
        requires
            old(self).wf(),
        ensures
            final(self).wf(),
            final(self)@.clock == next_tick(old(self)@.clock),
            final(self)@.clock >= old(self)@.clock,
            final(self)@.reload == old(self)@.reload,
            final(self)@.entries == if tracks(old(self)@.entries, peer_id) {
                old(self)@.entries.update(
                    entry_index(old(self)@.entries, peer_id),
                    probe_entry(peer_id, outcome, next_tick(old(self)@.clock)),
                )
            } else {
                old(self)@.entries.push(probe_entry(peer_id, outcome, next_tick(old(self)@.clock)))
            },
    {
        let tick = if self.clock < u64::MAX {
            self.clock + 1
        } else {
            self.clock
        };
        let entry = match outcome {
            ProbeOutcome::Reachable { latency_ticks } => HealthEntry {
                peer_id,
                status: HealthStatus::Healthy,
                latency_ticks: Some(latency_ticks),
                error: None,
                observed: tick,
            },
            ProbeOutcome::Unreachable { error } => HealthEntry {
                peer_id,
                status: HealthStatus::Unhealthy,
                latency_ticks: None,
                error: Some(error),
                observed: tick,
            },
        };
        let ghost before = self.entries@;
        match self.position(peer_id) {
            Some(i) => {
                self.entries.set(i, entry);
                assert forall|a: int, b: int|
                    0 <= a < self.entries@.len() && 0 <= b < self.entries@.len() && a != b implies #[trigger] self.entries@[a].peer_id
                    != #[trigger] self.entries@[b].peer_id by {
                    if a != i && b != i {
                        assert(before[a] == self.entries@[a]);
                        assert(before[b] == self.entries@[b]);
                    } else if a == i {
                        assert(before[b] == self.entries@[b]);
                        assert(before[a].peer_id == peer_id);
                    } else {
                        assert(before[a] == self.entries@[a]);
                        assert(before[b].peer_id == peer_id);
                    }
                }
            },
            None => {
                self.entries.push(entry);
                assert forall|a: int, b: int|
                    0 <= a < self.entries@.len() && 0 <= b < self.entries@.len() && a != b implies #[trigger] self.entries@[a].peer_id
                    != #[trigger] self.entries@[b].peer_id by {
                    if a < before.len() {
                        assert(before[a] == self.entries@[a]);
                    }
                    if b < before.len() {
                        assert(before[b] == self.entries@[b]);
                    }
                }
            },
        }
        self.clock = tick;
    }

    /// Status and last error of one peer; an untracked peer is `Unknown`.
    pub fn get_status(&self, peer_id: i32) -> (r: (HealthStatus, Option<String>))
        requires
            self.wf(),
        ensures
            tracks(self@.entries, peer_id) ==> r.0 == self@.entries[entry_index(
                self@.entries,
                peer_id,
            )].status && r.1 == self@.entries[entry_index(self@.entries, peer_id)].error,
            !tracks(self@.entries, peer_id) ==> r.0 == HealthStatus::Unknown && r.1 is None,
    {
        match self.position(peer_id) {
            Some(i) => (self.entries[i].status, copy_text(&self.entries[i].error)),
            None => (HealthStatus::Unknown, None),
        }
    }

    /// A point-in-time copy of every entry; later writes do not reach it.
    pub fn get_all_statuses(&self) -> (r: Vec<HealthEntry>)
        requires
            self.wf(),
        ensures
            r@ == self@.entries,
            distinct_peers(r@),
    {
        let mut out: Vec<HealthEntry> = Vec::new();
        let mut i: usize = 0;
        while i < self.entries.len()
            invariant
                i <= self.entries@.len(),
                out@ == self.entries@.subrange(0, i as int),
            decreases self.entries@.len() - i,
        {
            out.push(self.entries[i].copied());
            i = i + 1;
            assert(out@ =~= self.entries@.subrange(0, i as int));
        }
        assert(self.entries@.subrange(0, i as int) =~= self.entries@);
        out
    }

    /// Asks for the peer's connection parameters to be reloaded before its next
    /// probe. Asking twice is the same as asking once.
    pub fn invalidate(&mut self, peer_id: i32)
        requires
            old(self).wf(),
        ensures
            final(self).wf(),
            final(self)@.reload == old(self)@.reload.insert(peer_id),
            final(self)@.entries == old(self)@.entries,
            final(self)@.clock == old(self)@.clock,
    {
        let mut i: usize = 0;
        while i < self.reload.len()
            invariant
                *self == *old(self),
                self.wf(),
                i <= self.reload@.len(),
                forall|j: int| 0 <= j < i ==> self.reload@[j] != peer_id,
            decreases self.reload@.len() - i,
        {
            if self.reload[i] == peer_id {
                proof {
                    lemma_to_set_contains(self.reload@, peer_id);
                }
                assert(self@.reload.insert(peer_id) =~= self@.reload);
                return;
            }
            i = i + 1;
        }
        let ghost before = self.reload@;
        self.reload.push(peer_id);
        assert(self.reload@.no_duplicates()) by {
            assert forall|a: int, b: int|
                0 <= a < self.reload@.len() && 0 <= b < self.reload@.len() && a != b implies self.reload@[a]
                != self.reload@[b] by {
                if a < before.len() && b < before.len() {
                    assert(before[a] == self.reload@[a] && before[b] == self.reload@[b]);
                } else if a < before.len() {
                    assert(before[a] == self.reload@[a]);
                } else {
                    assert(before[b] == self.reload@[b]);
                }
            }
        }
        proof {
            lemma_push_to_set(before, peer_id);
        }
    }

    /// Whether the peer's connection parameters must be reloaded; the request
    /// is consumed.
    pub fn take_reload(&mut self, peer_id: i32) -> (r: bool)
        requires
            old(self).wf(),
        ensures
            final(self).wf(),
            r == old(self)@.reload.contains(peer_id),
            final(self)@.reload == old(self)@.reload.remove(peer_id),
            final(self)@.entries == old(self)@.entries,
            final(self)@.clock == old(self)@.clock,
    {
        let mut i: usize = 0;
        while i < self.reload.len()
            invariant
                *self == *old(self),
                self.wf(),
                i <= self.reload@.len(),
                forall|j: int| 0 <= j < i ==> self.reload@[j] != peer_id,
            decreases self.reload@.len() - i,
        {
            if self.reload[i] == peer_id {
                let ghost before = self.reload@;
                proof {
                    lemma_to_set_contains(before, peer_id);
                    lemma_remove_to_set(before, i as int);
                }
                self.reload.remove(i);
                return true;
            }
            i = i + 1;
        }
        proof {
            lemma_to_set_contains(self.reload@, peer_id);
        }
        assert(self@.reload.remove(peer_id) =~= self@.reload);
        false
    }
}

} // verus!
