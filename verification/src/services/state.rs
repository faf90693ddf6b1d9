use vstd::prelude::*;

verus! {

/// What a service state needs to be initialised from its settings.
pub trait ServiceState: Sized {
    /// Settings that the state can be initialised from.
    type Settings;
    /// Errors of the initialisation.
    type Error;

    /// Initialises a state from the settings; used when the state operator loads none.
    fn from_settings(settings: &Self::Settings) -> Result<Self, Self::Error>;
}

/// An entity that handles the successive states of a service, typically to save them and
/// to load a saved one at start.
pub trait StateOperator: Sized {
    /// The type of state that the operator handles.
    type StateInput;
    /// The settings the operator is configured from.
    type Settings;
    /// Errors of loading a state.
    type LoadError;

    /// Tries to load a saved state from an external source.
    fn try_load(settings: &Self::Settings) -> Result<Option<Self::StateInput>, Self::LoadError>;

    /// Builds the operator from its settings.
    fn from_settings(settings: Self::Settings) -> Self;

    /// Handles one new state of the service.
    fn run(&mut self, state: Self::StateInput);
}

} // verus!

use std::convert::Infallible;
use std::marker::PhantomData;

verus! {

/// Operator that does nothing with the states it gets and never loads one.
pub struct NoOperator<StateInput, Settings>(PhantomData<(StateInput, Settings)>);

impl<StateInput, Settings> Clone for NoOperator<StateInput, Settings> {
    fn clone(&self) -> (r: Self) {
        NoOperator(PhantomData)
    }
}

impl<StateInput, Settings> StateOperator for NoOperator<StateInput, Settings> {
    type StateInput = StateInput;
    type Settings = Settings;
    type LoadError = Infallible;

    fn try_load(_settings: &Self::Settings) -> (r: Result<Option<Self::StateInput>, Self::LoadError>)
        ensures
            r matches Ok(None),
    {
        Ok(None)
    }

    fn from_settings(_settings: Self::Settings) -> Self {
        NoOperator(PhantomData)
    }

    fn run(&mut self, _state: Self::StateInput) {
    }
}

/// Empty state, for services that keep none.
pub struct NoState<Settings>(PhantomData<Settings>);

impl<Settings> Clone for NoState<Settings> {
    fn clone(&self) -> (r: Self) {
        NoState(PhantomData)
    }
}

impl<Settings> ServiceState for NoState<Settings> {
    type Settings = Settings;
    type Error = Infallible;

    fn from_settings(_settings: &Self::Settings) -> (r: Result<Self, Self::Error>)
        ensures
            r is Ok,
    {
        Ok(NoState(PhantomData))
    }
}

/// The state a service starts from: the state its operator loaded, when it loaded one;
/// otherwise the state built from the settings by `from_settings`, which is called only then,
/// and whose error, if any, is the answer.
pub fn resolve_initial_state<State, LoadError, Error, F: FnOnce() -> Result<State, Error>>(
    loaded: Result<Option<State>, LoadError>,
    from_settings: F,
) -> (r: Result<State, Error>)
    requires
        !(loaded matches Ok(Some(_))) ==> from_settings.requires(()),
    ensures
        match loaded {
            Ok(Some(s)) => r == Ok::<State, Error>(s),
            _ => from_settings.ensures((), r),
        },
{
    match loaded {
        Ok(Some(state)) => Ok(state),
        _ => from_settings(),
    }
}

} // verus!
