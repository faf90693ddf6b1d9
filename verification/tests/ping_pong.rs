use overwatch::ping_pong::{
    pong_reply, PingAction, PingEvent, PingMessage, PingPongServiceSettings, PingService,
    PingSettings, PingState, PongMessage, PONG_LIMIT,
};
use overwatch::services::state::ServiceState;

#[test]
fn ping_state_starts_at_zero() {
    let settings = PingSettings {
        state_save_path: "saved_states/ping_state.json".to_string(),
    };
    let state = PingState::from_settings(&settings).unwrap();
    assert_eq!(state, PingState { pong_count: 0 });
    assert_eq!(PingState::default().pong_count, 0);
}

#[test]
fn pong_answers_ping() {
    assert_eq!(pong_reply(PongMessage::Ping), PingMessage::Pong);
}

#[test]
fn ping_sends_each_tick_and_counts_pongs() {
    let mut ping = PingService::new(PingState { pong_count: 0 });
    assert_eq!(
        ping.step(PingEvent::Tick),
        Some(PingAction::Send(PongMessage::Ping))
    );
    assert_eq!(ping.step(PingEvent::LimitCheck), None);
    assert_eq!(
        ping.step(PingEvent::Received(PingMessage::Pong)),
        Some(PingAction::Save(PingState { pong_count: 1 }))
    );
    assert_eq!(ping.pong_count(), 1);
}

#[test]
fn ping_exits_after_thirty_pongs() {
    let mut ping = PingService::new(PingState::default());
    for i in 1..=PONG_LIMIT {
        assert_eq!(ping.step(PingEvent::LimitCheck), None);
        assert_eq!(
            ping.step(PingEvent::Received(PingMessage::Pong)),
            Some(PingAction::Save(PingState { pong_count: i }))
        );
    }
    assert_eq!(ping.pong_count(), 30);
    assert_eq!(ping.step(PingEvent::LimitCheck), Some(PingAction::Exit));
}

#[test]
fn ping_resumes_from_saved_state() {
    let mut ping = PingService::new(PingState { pong_count: 29 });
    assert_eq!(ping.step(PingEvent::LimitCheck), None);
    ping.step(PingEvent::Received(PingMessage::Pong));
    assert_eq!(ping.step(PingEvent::LimitCheck), Some(PingAction::Exit));
}

#[test]
fn settings_clone_keeps_the_path() {
    let settings = PingPongServiceSettings {
        ping: PingSettings {
            state_save_path: "a/b.json".to_string(),
        },
        pong: (),
    };
    let copy = settings.clone();
    assert_eq!(copy.ping.state_save_path, "a/b.json");
}
