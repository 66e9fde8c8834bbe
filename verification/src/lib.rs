//! Node fleet lifecycle orchestration: a durable registry of node service
//! instances, conflict-free resource allocation for new instances, and the
//! decision logic that drives installing and starting those instances
//! through a host service manager and a local control-plane client.

use vstd::prelude::*;

mod allocator;
mod cmd;
mod codec;
mod errors;
mod install;
mod numerals;
mod peer;
mod registry;
mod start;

pub use allocator::allocate;
pub use allocator::make_service_name;
pub use allocator::name_in_use;
pub use allocator::next_free_ordinal;
pub use allocator::next_free_port;
pub use allocator::port_in_use;
pub use allocator::InstanceDescriptor;
pub use allocator::PORT_BASE;
pub use cmd::SubCmd;
pub use codec::decode_registry;
pub use codec::encode_registry;
pub use codec::lemma_registry_round_trip;
pub use errors::FleetError;
pub use install::register_installed;
pub use peer::canonical_peer_id;
pub use registry::InstanceRecord;
pub use registry::InstanceStatus;
pub use registry::RecordModel;
pub use registry::Registry;
pub use start::apply_start_outcome;
pub use start::needs_start;
pub use start::outcome_error;
pub use start::resolve_targets;
pub use start::should_retry_health_check;
pub use start::validate_selection;
pub use start::Selection;
pub use start::StartOutcome;
pub use start::HEALTH_CHECK_ATTEMPTS;
pub use start::HEALTH_CHECK_BACKOFF_SECS;

verus! {

/// The directory where the node binary is installed on this platform.
pub fn get_safenode_install_path() -> (r: String)
    ensures
        r@ == "/usr/local/bin"@,
{
    String::from_str("/usr/local/bin")
}

/// Relies on users::get_effective_uid (the geteuid system call): the
/// effective user id of this process. The value depends on the
/// environment, so nothing is stated of it.
#[verifier::external_body]
fn effective_uid() -> u32 {
    users::get_effective_uid()
}

/// Whether a user id is the root user's.
pub fn is_root_uid(uid: u32) -> (r: bool)
    ensures
        r == (uid == 0),
{
    uid == 0
}

/// Whether this process runs as the root user, the privilege the
/// install command needs.
pub fn is_running_as_root() -> bool {
    is_root_uid(effective_uid())
}

} // verus!
