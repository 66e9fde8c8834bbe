//! The install orchestrator's registry mutation.
//!
//! Installing `N` instances is: resolve the version, allocate `N`
//! descriptors ([`crate::allocator::allocate`]), then for each descriptor
//! in order register the service with the host backend and, only on
//! success, append the instance's record here. A record therefore never
//! enters the registry before its host service entry exists, and a
//! backend failure leaves every record of the same call that was already
//! appended in place.

use vstd::prelude::*;

use crate::allocator::InstanceDescriptor;
use crate::errors::FleetError;
use crate::registry::InstanceStatus;
use crate::registry::RecordModel;
use crate::registry::Registry;

verus! {

/// Whether `m`'s service name and RPC port are both absent from `rs`.
pub open spec fn fresh_against(rs: Seq<RecordModel>, name: Seq<char>, port: u16) -> bool {
    forall|i: int| 0 <= i < rs.len() ==> rs[i].service_name != name && rs[i].rpc_port != port
}

/// The record that registering `d` with backend handle `handle` appends:
/// status `Installed`, no peer id yet.
pub open spec fn installed_record(d: crate::allocator::DescModel, handle: Seq<char>) -> RecordModel {
    RecordModel {
        service_name: d.service_name,
        peer_id: None,
        rpc_port: d.rpc_port,
        version: d.version,
        user: d.user,
        binary_path: d.binary_path,
        data_dir_path: d.data_dir_path,
        log_dir_path: d.log_dir_path,
        status: InstanceStatus::Installed,
        service_backend_handle: handle,
    }
}

/// Appends the record of a freshly registered instance.
///
/// To be called once the host service backend has registered the
/// instance described by `desc` under `handle`, and only then. The
/// descriptor's name and port are checked against the registry once
/// more; a collision returns `ServiceRegistrationError` naming the
/// instance and leaves the registry unchanged, so the uniqueness
/// invariant holds of every registry this function produces.
pub fn register_installed(reg: &mut Registry, desc: &InstanceDescriptor, handle: &String) -> (r:
    Result<(), FleetError>)
    requires
        old(reg).wf(),
    ensures
        r is Ok <==> fresh_against(old(reg)@, desc.service_name@, desc.rpc_port),
        r is Ok ==> final(reg)@ == old(reg)@.push(installed_record(desc.model(), handle@)),
        r matches Err(e) ==> final(reg)@ == old(reg)@ && (e matches
            FleetError::ServiceRegistrationError { service_name: n } && n@
            == desc.service_name@),
        final(reg).wf(),
{
    let mut i: usize = 0;
    while i < reg.records.len()
        invariant
            reg@ == old(reg)@,
            old(reg).wf(),
            i <= reg@.len(),
            reg@.len() == reg.records@.len(),
            forall|j: int|
                0 <= j < i ==> reg@[j].service_name != desc.service_name@ && reg@[j].rpc_port
                    != desc.rpc_port,
        decreases reg@.len() - i,
    {
        if reg.records[i].service_name == desc.service_name || reg.records[i].rpc_port
            == desc.rpc_port {
            proof {
                assert(reg@[i as int].service_name == desc.service_name@ || reg@[i as int].rpc_port
                    == desc.rpc_port);
                assert(!fresh_against(reg@, desc.service_name@, desc.rpc_port));
            }
            return Err(
                FleetError::ServiceRegistrationError { service_name: desc.service_name.clone() },
            );
        }
        i = i + 1;
    }
    let record = record_of_descriptor(desc, handle);
    proof {
        crate::registry::lemma_wf_push_fresh(reg@, record.model());
    }
    let ghost before = reg@;
    reg.records.push(record);
    proof {
        assert(reg@ =~= before.push(installed_record(desc.model(), handle@)));
    }
    Ok(())
}

/// The executable counterpart of [`installed_record`].
fn record_of_descriptor(desc: &InstanceDescriptor, handle: &String) -> (r:
    crate::registry::InstanceRecord)
    ensures
        r.model() == installed_record(desc.model(), handle@),
{
    crate::registry::InstanceRecord {
        service_name: desc.service_name.clone(),
        peer_id: None,
        rpc_port: desc.rpc_port,
        version: desc.version.clone(),
        user: desc.user.clone(),
        binary_path: desc.binary_path.clone(),
        data_dir_path: desc.data_dir_path.clone(),
        log_dir_path: desc.log_dir_path.clone(),
        status: InstanceStatus::Installed,
        service_backend_handle: handle.clone(),
    }
}

} // verus!
