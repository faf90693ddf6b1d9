pub mod commands;
pub mod life_cycle;
pub mod runner;

use vstd::prelude::*;

use crate::services::{ServiceError, ServiceId};

verus! {

/// Errors of the runner. `AnyError` is the type of the errors of any other kind that it
/// carries as they are (a boxed `std::error::Error` in an application).
#[derive(Debug)]
pub enum Error<AnyError> {
    /// An error of a service's relay.
    Relay(ServiceError),
    /// No service with this identification is part of the application.
    Unavailable { service_id: ServiceId },
    /// Two services were registered under the same identification.
    DuplicatedServiceId { service_id: ServiceId },
    /// Any other error, kept as it is.
    Any(AnyError),
}

impl<AnyError> Error<AnyError> {
    /// Wraps any other error, keeping it as it is.
    pub fn any(err: AnyError) -> (r: Self)
        ensures
            r == Error::<AnyError>::Any(err),
    {
        Error::Any(err)
    }
}

impl<AnyError> From<ServiceError> for Error<AnyError> {
    fn from(err: ServiceError) -> (r: Self) {
        Error::Relay(err)
    }
}

impl<AnyError> vstd::std_specs::convert::FromSpecImpl<ServiceError> for Error<AnyError> {
    open spec fn obeys_from_spec() -> bool {
        true
    }

    open spec fn from_spec(v: ServiceError) -> Self {
        Error::Relay(v)
    }
}

} // verus!
