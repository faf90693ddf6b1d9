use vstd::prelude::*;

verus! {

/// Life-cycle messages for a service. `Shutdown` holds the channel through which the service
/// signals that it has finished shutting down.
#[derive(Debug, Clone)]
pub enum LifecycleMessage<Signal> {
    Shutdown(Signal),
    Kill,
}

} // verus!
