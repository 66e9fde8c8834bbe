//! The durable registry of node service instances.
//!
//! A [`Registry`] is an ordered collection of [`InstanceRecord`]s, keyed by
//! `service_name`. Insertion order is preserved, and two invariants hold of
//! every registry this library produces: service names are pairwise distinct
//! and RPC ports are pairwise distinct, regardless of instance status.

use vstd::prelude::*;

verus! {

/// The lifecycle state of one node service instance.
#[derive(Clone, Copy, PartialEq, Eq, Structural, Debug)]
pub enum InstanceStatus {
    Added,
    Installed,
    Running,
    Stopped,
    Removed,
}

/// One entry of the registry: a single node instance managed as a
/// host-level background service.
#[derive(Debug)]
pub struct InstanceRecord {
    /// Unique key within the registry, stable for the instance's lifetime.
    pub service_name: String,
    /// The instance's self-reported network identity; absent until the
    /// instance has been confirmed running at least once.
    pub peer_id: Option<String>,
    /// Assigned at install time, unique across all records, immutable.
    pub rpc_port: u16,
    /// The resolved software version installed for this instance.
    pub version: String,
    /// The host account the service runs under.
    pub user: String,
    /// Filesystem locations, unique per instance, derived from `service_name`.
    pub binary_path: String,
    pub data_dir_path: String,
    pub log_dir_path: String,
    /// Lifecycle state; see [`InstanceStatus`].
    pub status: InstanceStatus,
    /// Opaque identifier the service backend uses for this instance's
    /// host-level service entry.
    pub service_backend_handle: String,
}

impl InstanceRecord {
    /// Mathematical model of a record: every field, with strings as
    /// character sequences.
    pub open spec fn model(self) -> RecordModel {
        RecordModel {
            service_name: self.service_name@,
            peer_id: match self.peer_id {
                Some(p) => Some(p@),
                None => None,
            },
            rpc_port: self.rpc_port,
            version: self.version@,
            user: self.user@,
            binary_path: self.binary_path@,
            data_dir_path: self.data_dir_path@,
            log_dir_path: self.log_dir_path@,
            status: self.status,
            service_backend_handle: self.service_backend_handle@,
        }
    }
}

/// Ghost mirror of [`InstanceRecord`]: the contracts of this library speak
/// of records through this model.
pub ghost struct RecordModel {
    pub service_name: Seq<char>,
    pub peer_id: Option<Seq<char>>,
    pub rpc_port: u16,
    pub version: Seq<char>,
    pub user: Seq<char>,
    pub binary_path: Seq<char>,
    pub data_dir_path: Seq<char>,
    pub log_dir_path: Seq<char>,
    pub status: InstanceStatus,
    pub service_backend_handle: Seq<char>,
}

/// An ordered collection of instance records, keyed by `service_name`.
#[derive(Debug)]
pub struct Registry {
    pub records: Vec<InstanceRecord>,
}

impl View for Registry {
    type V = Seq<RecordModel>;

    open spec fn view(&self) -> Seq<RecordModel> {
        self.records@.map(|i: int, r: InstanceRecord| r.model())
    }
}

/// The registry invariant: service names pairwise distinct and RPC ports
/// pairwise distinct, regardless of status.
pub open spec fn registry_wf(rs: Seq<RecordModel>) -> bool {
    forall|i: int, j: int|
        0 <= i < rs.len() && 0 <= j < rs.len() && i != j ==> rs[i].service_name
            != rs[j].service_name && rs[i].rpc_port != rs[j].rpc_port
}

/// The uniqueness invariant is preserved by appending a record whose
/// service name and RPC port occur nowhere in the registry — the only
/// way an install grows one. Together with the empty registry satisfying
/// the invariant, every registry produced by any sequence of install
/// calls has pairwise-distinct service names and RPC ports.
pub proof fn lemma_wf_push_fresh(rs: Seq<RecordModel>, m: RecordModel)
    requires
        registry_wf(rs),
        forall|i: int|
            0 <= i < rs.len() ==> rs[i].service_name != m.service_name && rs[i].rpc_port
                != m.rpc_port,
    ensures
        registry_wf(rs.push(m)),
{
    let rs2 = rs.push(m);
    assert forall|a: int, b: int|
        0 <= a < rs2.len() && 0 <= b < rs2.len() && a != b implies rs2[a].service_name
        != rs2[b].service_name && rs2[a].rpc_port != rs2[b].rpc_port by {
        if a == rs2.len() - 1 {
            assert(rs2[b] == rs[b]);
        } else if b == rs2.len() - 1 {
            assert(rs2[a] == rs[a]);
        } else {
            assert(rs2[a] == rs[a] && rs2[b] == rs[b]);
        }
    }
}

impl Registry {
    /// Whether this registry satisfies the uniqueness invariant.
    pub open spec fn wf(&self) -> bool {
        registry_wf(self@)
    }

    /// An empty registry: what `load` yields on a first run, before any
    /// durable state exists.
    pub fn new() -> (r: Registry)
        ensures
            r@ =~= Seq::<RecordModel>::empty(),
            r.wf(),
    {
        Registry { records: Vec::new() }
    }

    /// The number of records.
    pub fn len(&self) -> (n: usize)
        ensures
            n == self@.len(),
    {
        self.records.len()
    }

    /// The index of the record whose `service_name` equals `name`, if any.
    pub fn find_by_name(&self, name: &String) -> (r: Option<usize>)
        ensures
            match r {
                Some(i) => 0 <= i < self@.len() && self@[i as int].service_name == name@,
                None => forall|i: int| 0 <= i < self@.len() ==> self@[i].service_name != name@,
            },
    {
        let mut i: usize = 0;
        while i < self.records.len()
            invariant
                0 <= i <= self@.len(),
                self@.len() == self.records@.len(),
                forall|j: int| 0 <= j < i ==> self@[j].service_name != name@,
            decreases self@.len() - i,
        {
            if self.records[i].service_name == *name {
                return Some(i);
            }
            i = i + 1;
        }
        None
    }

    /// The index of the record whose confirmed `peer_id` equals `peer`, if
    /// any. An instance that has never run successfully has no peer id and
    /// can never match.
    pub fn find_by_peer_id(&self, peer: &String) -> (r: Option<usize>)
        ensures
            match r {
                Some(i) => 0 <= i < self@.len() && self@[i as int].peer_id == Some(peer@),
                None => forall|i: int| 0 <= i < self@.len() ==> self@[i].peer_id != Some(peer@),
            },
    {
        let mut i: usize = 0;
        while i < self.records.len()
            invariant
                0 <= i <= self@.len(),
                self@.len() == self.records@.len(),
                forall|j: int| 0 <= j < i ==> self@[j].peer_id != Some(peer@),
            decreases self@.len() - i,
        {
            match &self.records[i].peer_id {
                Some(p) => {
                    if *p == *peer {
                        return Some(i);
                    }
                },
                None => {},
            }
            i = i + 1;
        }
        None
    }
}

} // verus!
