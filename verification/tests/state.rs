use std::cell::Cell;
use std::convert::Infallible;

use overwatch::services::state::{
    resolve_initial_state, NoOperator, NoState, ServiceState, StateOperator,
};
use tokio::sync::broadcast;
use tokio::sync::broadcast::error::SendError;

#[derive(Clone)]
struct TryLoadState;

#[derive(Debug, Clone)]
struct TryLoadSettings {
    origin_sender: broadcast::Sender<String>,
}

impl ServiceState for TryLoadState {
    type Settings = TryLoadSettings;
    type Error = SendError<String>;

    fn from_settings(settings: &Self::Settings) -> Result<Self, Self::Error> {
        settings
            .origin_sender
            .send(String::from("ServiceState::from_settings"))?;
        Ok(Self {})
    }
}

#[derive(Clone)]
struct TryLoadOperator;

impl StateOperator for TryLoadOperator {
    type StateInput = TryLoadState;
    type Settings = TryLoadSettings;
    type LoadError = SendError<String>;

    fn try_load(settings: &Self::Settings) -> Result<Option<Self::StateInput>, Self::LoadError> {
        settings
            .origin_sender
            .send(String::from("StateOperator::try_load"))?;
        Ok(Some(Self::StateInput {}))
    }

    fn from_settings(_settings: Self::Settings) -> Self {
        Self {}
    }

    fn run(&mut self, _state: Self::StateInput) {}
}

#[test]
fn load_state_from_operator() {
    // Create a sender that will be called wherever the state is loaded
    let (origin_sender, mut origin_receiver) = broadcast::channel(1);
    let settings = TryLoadSettings { origin_sender };

    let state = resolve_initial_state(TryLoadOperator::try_load(&settings), || {
        TryLoadState::from_settings(&settings)
    });
    assert!(state.is_ok());

    // Check if the origin was called
    let origin = origin_receiver.try_recv().expect("Value was not sent");
    assert_eq!(origin, "StateOperator::try_load");
    assert!(origin_receiver.try_recv().is_err());
}

#[test]
fn state_is_built_from_settings_when_nothing_is_loaded() {
    let calls = Cell::new(0);
    let loaded: Result<Option<u32>, &str> = Ok(None);
    let state = resolve_initial_state(loaded, || {
        calls.set(calls.get() + 1);
        Ok::<u32, String>(7)
    });
    assert_eq!(state, Ok(7));
    assert_eq!(calls.get(), 1);

    let failed: Result<Option<u32>, &str> = Err("unreadable");
    let state = resolve_initial_state(failed, || Err::<u32, String>("no settings".to_string()));
    assert_eq!(state, Err("no settings".to_string()));
}

#[test]
fn loaded_state_wins_and_settings_are_not_used() {
    let calls = Cell::new(0);
    let loaded: Result<Option<u32>, &str> = Ok(Some(3));
    let state = resolve_initial_state(loaded, || {
        calls.set(calls.get() + 1);
        Ok::<u32, String>(7)
    });
    assert_eq!(state, Ok(3));
    assert_eq!(calls.get(), 0);
}

#[test]
fn no_operator_and_no_state() {
    let loaded = <NoOperator<u32, ()> as StateOperator>::try_load(&());
    assert!(matches!(loaded, Ok(None)));
    let mut operator = <NoOperator<u32, ()> as StateOperator>::from_settings(());
    operator.run(5);
    let _copy = operator.clone();
    let state: Result<NoState<()>, Infallible> = NoState::from_settings(&());
    assert!(state.is_ok());
}
