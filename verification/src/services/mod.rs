pub mod life_cycle;
pub mod relay;
pub mod state;
pub mod status;

use vstd::prelude::*;

use crate::services::relay::{RelayError, RelayMessage};
use crate::services::state::{ServiceState, StateOperator};

verus! {

/// Identification of a service within an application.
pub type ServiceId = &'static str;

/// The core data a service needs to be handled: its identification, the size of its relay
/// buffer, and the types of its settings, state, state operator and messages.
pub trait ServiceData {
    /// Service identification tag.
    const SERVICE_ID: ServiceId;
    /// Service relay buffer size.
    const SERVICE_RELAY_BUFFER_SIZE: usize = 16;
    /// Service settings object.
    type Settings: Clone;
    /// Service state object.
    type State: ServiceState<Settings = Self::Settings> + Clone;
    /// State operator.
    type StateOperator: StateOperator<StateInput = Self::State> + Clone;
    /// Messages that the service itself understands and can react to.
    type Message: RelayMessage + std::fmt::Debug + Send + Sync;
}

/// Errors that come out of a service.
#[derive(Debug)]
pub enum ServiceError {
    RelayError(RelayError),
}

impl From<RelayError> for ServiceError {
    fn from(err: RelayError) -> (r: Self) {
        ServiceError::RelayError(err)
    }
}

impl vstd::std_specs::convert::FromSpecImpl<RelayError> for ServiceError {
    open spec fn obeys_from_spec() -> bool {
        true
    }

    open spec fn from_spec(v: RelayError) -> Self {
        ServiceError::RelayError(v)
    }
}

} // verus!
