//! The start orchestrator's decisions.
//!
//! A start invocation selects instances (one by service name, one by
//! peer id, or all registered instances, in registry order), and per
//! selected instance either does nothing (already `Running`) or has the
//! host backend start it and a control-plane query confirm it. The
//! outside work — the backend call, the bounded retry of the local
//! control-plane query — is performed by the caller; the decisions and
//! the registry mutation are here, and [`start_step`] is the state
//! machine they follow.

use vstd::prelude::*;

use crate::errors::FleetError;
use crate::peer::canonical_peer_id;
use crate::peer::peer_id_canon;
use crate::registry::InstanceStatus;
use crate::registry::RecordModel;
use crate::registry::Registry;

verus! {

/// How many control-plane liveness queries are attempted per instance
/// before the start of that instance is reported as timed out.
pub const HEALTH_CHECK_ATTEMPTS: u64 = 10;

/// Seconds to wait between two liveness attempts on one instance.
pub const HEALTH_CHECK_BACKOFF_SECS: u64 = 2;

/// Whether one more liveness attempt is within the retry budget,
/// `attempt` attempts having failed already.
pub fn should_retry_health_check(attempt: u64) -> (r: bool)
    ensures
        r == (attempt < HEALTH_CHECK_ATTEMPTS),
{
    attempt < HEALTH_CHECK_ATTEMPTS
}

/// What a start invocation targets. The three modes are mutually
/// exclusive by construction.
#[derive(Debug)]
pub enum Selection {
    /// Every registered instance, in registry order.
    All,
    /// The one record with this service name.
    ByName(String),
    /// The one record with this confirmed peer id, in canonical form.
    ByPeerId(String),
}

/// Turns the two optional command-line selectors into a [`Selection`].
///
/// Supplying both a service name and a peer id is a caller error,
/// `AmbiguousSelection`, not resolved by precedence. A peer id that does
/// not denote any peer identity can match no record and is reported as
/// `NotFound`. Nothing is mutated: the registry is not even consulted.
pub fn validate_selection(service_name: Option<String>, peer_id: Option<String>) -> (r: Result<
    Selection,
    FleetError,
>)
    ensures
        service_name is Some && peer_id is Some <==> r == Err::<Selection, FleetError>(
            FleetError::AmbiguousSelection,
        ),
        service_name matches Some(n) ==> peer_id is Some || (r matches Ok(Selection::ByName(m))
            && m@ == n@),
        peer_id matches Some(p) ==> service_name is Some || (match peer_id_canon(p@) {
            Some(c) => r matches Ok(Selection::ByPeerId(q)) && q@ == c,
            None => r == Err::<Selection, FleetError>(FleetError::NotFound),
        }),
        service_name is None && peer_id is None ==> r matches Ok(Selection::All),
{
    match (service_name, peer_id) {
        (Some(_), Some(_)) => Err(FleetError::AmbiguousSelection),
        (Some(n), None) => Ok(Selection::ByName(n)),
        (None, Some(p)) => match canonical_peer_id(p.as_str()) {
            Some(c) => Ok(Selection::ByPeerId(c)),
            None => Err(FleetError::NotFound),
        },
        (None, None) => Ok(Selection::All),
    }
}

/// Resolves a selection to the indices of the targeted records, in
/// registry order.
///
/// By name: the record whose `service_name` matches exactly, `NotFound`
/// if absent. By peer id: the record whose confirmed peer id matches,
/// `NotFound` if no record has confirmed that identity. All: every
/// record. The registry is read, never changed.
pub fn resolve_targets(reg: &Registry, sel: &Selection) -> (r: Result<Vec<usize>, FleetError>)
    ensures
        match sel {
            Selection::All => r matches Ok(v) && v@.len() == reg@.len() && (forall|i: int|
                0 <= i < v@.len() ==> v@[i] == i),
            Selection::ByName(n) => match r {
                Ok(v) => v@.len() == 1 && v@[0] < reg@.len() && reg@[v@[0] as int].service_name
                    == n@,
                Err(e) => e == FleetError::NotFound && (forall|i: int|
                    0 <= i < reg@.len() ==> reg@[i].service_name != n@),
            },
            Selection::ByPeerId(p) => match r {
                Ok(v) => v@.len() == 1 && v@[0] < reg@.len() && reg@[v@[0] as int].peer_id == Some(
                    p@,
                ),
                Err(e) => e == FleetError::NotFound && (forall|i: int|
                    0 <= i < reg@.len() ==> reg@[i].peer_id != Some(p@)),
            },
        },
{
    match sel {
        Selection::All => {
            let mut v: Vec<usize> = Vec::new();
            let mut i: usize = 0;
            while i < reg.records.len()
                invariant
                    i <= reg@.len(),
                    reg@.len() == reg.records@.len(),
                    v@.len() == i,
                    forall|j: int| 0 <= j < i ==> v@[j] == j,
                decreases reg@.len() - i,
            {
                v.push(i);
                i = i + 1;
            }
            Ok(v)
        },
        Selection::ByName(n) => match reg.find_by_name(n) {
            Some(i) => {
                let mut v: Vec<usize> = Vec::new();
                v.push(i);
                Ok(v)
            },
            None => Err(FleetError::NotFound),
        },
        Selection::ByPeerId(p) => match reg.find_by_peer_id(p) {
            Some(i) => {
                let mut v: Vec<usize> = Vec::new();
                v.push(i);
                Ok(v)
            },
            None => Err(FleetError::NotFound),
        },
    }
}

/// What the caller's outside work on one instance came to.
pub enum StartOutcome {
    /// The backend started the service and a control-plane query
    /// confirmed liveness, reporting this peer id.
    Confirmed(String),
    /// The host-level start failed.
    BackendFailed,
    /// The service started but no liveness confirmation arrived within
    /// the retry budget.
    HealthCheckTimeout,
}

/// Ghost mirror of [`StartOutcome`].
pub ghost enum OutcomeModel {
    Confirmed(Seq<char>),
    BackendFailed,
    HealthCheckTimeout,
}

impl StartOutcome {
    /// Mathematical model of an outcome.
    pub open spec fn model(self) -> OutcomeModel {
        match self {
            StartOutcome::Confirmed(p) => OutcomeModel::Confirmed(p@),
            StartOutcome::BackendFailed => OutcomeModel::BackendFailed,
            StartOutcome::HealthCheckTimeout => OutcomeModel::HealthCheckTimeout,
        }
    }
}

/// The per-instance start state machine: a record already `Running` is
/// left untouched whatever the outside work reported (starting it again
/// is a no-op), a confirmed start sets the confirmed peer id and
/// `Running`, and a failed start leaves the record as it was.
pub open spec fn start_step(m: RecordModel, o: OutcomeModel) -> RecordModel {
    if m.status == InstanceStatus::Running {
        m
    } else {
        match o {
            OutcomeModel::Confirmed(p) => RecordModel {
                peer_id: Some(p),
                status: InstanceStatus::Running,
                ..m
            },
            OutcomeModel::BackendFailed => m,
            OutcomeModel::HealthCheckTimeout => m,
        }
    }
}

/// Starting an already-running instance is a no-op: it changes nothing
/// of the record — in particular neither its peer id nor its RPC port.
pub proof fn lemma_idempotent_start(m: RecordModel, o: OutcomeModel)
    requires
        m.status == InstanceStatus::Running,
    ensures
        start_step(m, o) == m,
{
}

/// Whether the record at `i` needs outside work at all: an instance
/// already `Running` is not started again.
pub fn needs_start(reg: &Registry, i: usize) -> (r: bool)
    requires
        i < reg@.len(),
    ensures
        r == (reg@[i as int].status != InstanceStatus::Running),
{
    reg.records[i].status != InstanceStatus::Running
}

/// Applies [`start_step`] to the record at `i`. Every other record, and
/// the order of records, is untouched; the uniqueness invariant is
/// preserved since neither the service name nor the port changes.
pub fn apply_start_outcome(reg: &mut Registry, i: usize, outcome: &StartOutcome)
    requires
        old(reg).wf(),
        i < old(reg)@.len(),
    ensures
        final(reg)@ == old(reg)@.update(i as int, start_step(old(reg)@[i as int], outcome.model())),
        final(reg).wf(),
{
    let ghost before = reg@;
    if reg.records[i].status != InstanceStatus::Running {
        match outcome {
            StartOutcome::Confirmed(p) => {
                reg.records[i].peer_id = Some(p.clone());
                reg.records[i].status = InstanceStatus::Running;
            },
            StartOutcome::BackendFailed => {},
            StartOutcome::HealthCheckTimeout => {},
        }
    }
    proof {
        assert(reg@ =~= before.update(i as int, start_step(before[i as int], outcome.model())));
        lemma_wf_after_update(before, reg@);
    }
}

/// The uniqueness invariant is preserved by any change that keeps every
/// record's service name and RPC port — which is all a start invocation
/// ever does to a registry.
pub proof fn lemma_wf_after_update(before: Seq<RecordModel>, after: Seq<RecordModel>)
    requires
        crate::registry::registry_wf(before),
        after.len() == before.len(),
        forall|j: int|
            0 <= j < after.len() ==> after[j].service_name == before[j].service_name
                && after[j].rpc_port == before[j].rpc_port,
    ensures
        crate::registry::registry_wf(after),
{
    assert forall|a: int, b: int|
        0 <= a < after.len() && 0 <= b < after.len() && a != b implies after[a].service_name
        != after[b].service_name && after[a].rpc_port != after[b].rpc_port by {
        assert(before[a].service_name != before[b].service_name && before[a].rpc_port
            != before[b].rpc_port);
    }
}

/// The error, if any, that one instance's outcome is reported as.
pub fn outcome_error(outcome: &StartOutcome, service_name: &String) -> (r: Option<FleetError>)
    ensures
        match outcome.model() {
            OutcomeModel::Confirmed(_) => r is None,
            OutcomeModel::BackendFailed => r matches Some(e) && e matches
                FleetError::ServiceStartError { service_name: n } && n@ == service_name@,
            OutcomeModel::HealthCheckTimeout => r matches Some(e) && e matches
                FleetError::HealthCheckTimeout { service_name: n } && n@ == service_name@,
        },
{
    match outcome {
        StartOutcome::Confirmed(_) => None,
        StartOutcome::BackendFailed => Some(
            FleetError::ServiceStartError { service_name: service_name.clone() },
        ),
        StartOutcome::HealthCheckTimeout => Some(
            FleetError::HealthCheckTimeout { service_name: service_name.clone() },
        ),
    }
}

} // verus!
