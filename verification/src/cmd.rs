//! The two operations a caller can select.

use vstd::prelude::*;

verus! {

/// Install safenode as a service, or start an installed safenode
/// service. These are the orchestrator's two entry points; the fields
/// mirror the command line flags of each.
#[derive(Debug)]
pub enum SubCmd {
    /// Register `count` new instances (default one) with the host
    /// service manager. Must run as the root/administrative user. `user`
    /// names the account the services run under (created if absent);
    /// `version` pins the software version instead of the latest.
    Install { count: Option<u16>, user: Option<String>, version: Option<String> },
    /// Start installed services: the one named, the one with the given
    /// peer id, or — with neither given — all of them.
    Start { peer_id: Option<String>, service_name: Option<String> },
}

impl SubCmd {
    /// Whether this command must run as the root user.
    pub fn requires_root(&self) -> (r: bool)
        ensures
            r == (self matches SubCmd::Install { .. }),
    {
        match self {
            SubCmd::Install { .. } => true,
            SubCmd::Start { .. } => false,
        }
    }
}

} // verus!
