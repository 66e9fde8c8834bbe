//! The error taxonomy of the orchestrator.

use vstd::prelude::*;

verus! {

/// Every failure the orchestrator reports. Variants that concern one
/// instance carry its service name so the caller can act on the report.
#[derive(Debug, PartialEq, Eq)]
pub enum FleetError {
    /// The durable registry exists but cannot be parsed.
    CorruptRegistry,
    /// The requested version could not be resolved to a verified binary;
    /// fatal for the whole install call.
    ArtifactResolutionError,
    /// The host service backend failed to register an instance; prior
    /// successes in the same call are retained.
    ServiceRegistrationError { service_name: String },
    /// A start selection supplied both a service name and a peer id.
    AmbiguousSelection,
    /// A start selection matched no record.
    NotFound,
    /// The host-level start of one instance failed.
    ServiceStartError { service_name: String },
    /// An instance did not confirm liveness within the retry budget.
    HealthCheckTimeout { service_name: String },
}

} // verus!
