use vstd::prelude::*;

use crate::services::ServiceId;

verus! {

/// Life-cycle status of a service, as published to its watchers.
#[derive(Copy, Clone, Debug, PartialEq, Eq, Structural)]
pub enum ServiceStatus {
    Uninitialized,
    Running,
    Stopped,
}

/// Errors of status requests.
#[derive(Debug)]
pub enum ServiceStatusError {
    /// No service with this identification is part of the application.
    Unavailable { service_id: ServiceId },
}

/// What a watcher gets back when it waits for `wanted` while the service was last seen in
/// `current`, and the wait itself ended with `observed` (`Some` with the status that satisfied
/// the wait, `None` when it timed out or the status channel closed).
pub open spec fn wait_outcome(
    current: ServiceStatus,
    wanted: ServiceStatus,
    observed: Option<ServiceStatus>,
) -> Result<ServiceStatus, ServiceStatus> {
    if wanted == current {
        Ok(current)
    } else {
        match observed {
            Some(s) => Ok(s),
            None => Err(current),
        }
    }
}

/// Decides the answer of a status wait: immediately `Ok(current)` when the current status is
/// already the wanted one; otherwise the status the wait observed, or `Err(current)` when the
/// wait gave up.
pub fn resolve_wait(
    current: ServiceStatus,
    wanted: ServiceStatus,
    observed: Option<ServiceStatus>,
) -> (r: Result<ServiceStatus, ServiceStatus>)
    ensures
        r == wait_outcome(current, wanted, observed),
        wanted == current ==> r == Ok::<ServiceStatus, ServiceStatus>(current),
        wanted != current && observed is None ==> r == Err::<ServiceStatus, ServiceStatus>(
            current,
        ),
        wanted != current && observed is Some ==> r == Ok::<ServiceStatus, ServiceStatus>(
            observed->0,
        ),
{
    if wanted == current {
        return Ok(current);
    }
    match observed {
        Some(s) => Ok(s),
        None => Err(current),
    }
}

/// A wait that gives up answers with the status the service had when the wait started, and
/// only then: an error always carries the starting status, a wait for the current status
/// never fails, and a success carries the wanted status when it was already there, else the
/// status the wait saw.
pub proof fn lemma_wait_answers(
    current: ServiceStatus,
    wanted: ServiceStatus,
    observed: Option<ServiceStatus>,
)
    ensures
        wait_outcome(current, wanted, observed) matches Err(s) ==> s == current && wanted
            != current && observed is None,
        wait_outcome(current, wanted, observed) matches Ok(s) ==> (wanted == current && s
            == current) || (observed == Some(s) && wanted != current),
        wanted != current ==> wait_outcome(current, wanted, None) == Err::<
            ServiceStatus,
            ServiceStatus,
        >(current),
{
}

} // verus!
