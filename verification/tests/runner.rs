use overwatch::overwatch::commands::{
    OverwatchCommand, OverwatchLifeCycleCommand, RelayCommand, ServiceLifeCycleCommand,
    SettingsCommand, StatusCommand,
};
use overwatch::overwatch::runner::{OverwatchRunnerState, RunnerAction};
use overwatch::services::life_cycle::LifecycleMessage;

type Command = OverwatchCommand<u8, u16, &'static str, String>;
type Action = RunnerAction<u8, u16, &'static str, String>;

fn run(commands: Vec<Command>) -> (bool, Vec<Action>) {
    let mut runner = OverwatchRunnerState::new();
    runner.start(Ok::<(), ()>(())).unwrap();
    let mut actions = Vec::new();
    for command in commands {
        if let Some(action) = runner.step(command) {
            actions.push(action);
        }
        if runner.is_finished() {
            break;
        }
    }
    (runner.is_finished(), actions)
}

#[test]
fn run_overwatch_then_stop() {
    let (finished, actions) = run(vec![OverwatchCommand::OverwatchLifeCycle(
        OverwatchLifeCycleCommand::Shutdown,
    )]);
    assert!(finished);
    assert_eq!(actions.len(), 1);
    assert!(matches!(actions[0], RunnerAction::KillAllAndFinish));
}

#[test]
fn run_overwatch_then_kill() {
    let (finished, actions) = run(vec![OverwatchCommand::OverwatchLifeCycle(
        OverwatchLifeCycleCommand::Kill,
    )]);
    assert!(finished);
    assert_eq!(actions.len(), 1);
    assert!(matches!(actions[0], RunnerAction::KillAllAndFinish));
}

#[test]
fn commands_map_to_actions_in_order() {
    let (finished, actions) = run(vec![
        OverwatchCommand::Relay(RelayCommand {
            service_id: "pong",
            reply_channel: 7,
        }),
        OverwatchCommand::Status(StatusCommand {
            service_id: "ping",
            reply_channel: 9,
        }),
        OverwatchCommand::ServiceLifeCycle(ServiceLifeCycleCommand {
            service_id: "ping",
            msg: LifecycleMessage::Shutdown("signal"),
        }),
        OverwatchCommand::ServiceLifeCycle(ServiceLifeCycleCommand {
            service_id: "pong",
            msg: LifecycleMessage::Kill,
        }),
        OverwatchCommand::Settings(SettingsCommand("new".to_string())),
    ]);
    assert!(!finished);
    assert_eq!(actions.len(), 5);
    assert!(matches!(
        &actions[0],
        RunnerAction::HandleRelay(RelayCommand { service_id: "pong", reply_channel: 7 })
    ));
    assert!(matches!(
        &actions[1],
        RunnerAction::HandleStatus(StatusCommand { service_id: "ping", reply_channel: 9 })
    ));
    assert!(matches!(
        &actions[2],
        RunnerAction::ShutdownService { service_id: "ping", signal: "signal" }
    ));
    assert!(matches!(
        &actions[3],
        RunnerAction::KillService { service_id: "pong" }
    ));
    assert!(matches!(&actions[4], RunnerAction::UpdateSettings(SettingsCommand(s)) if s == "new"));
}

#[test]
fn nothing_is_handled_after_the_runner_finished() {
    let mut runner = OverwatchRunnerState::new();
    runner.start(Ok::<u8, ()>(1)).unwrap();
    let first: Command = OverwatchCommand::OverwatchLifeCycle(OverwatchLifeCycleCommand::Shutdown);
    assert!(matches!(runner.step(first), Some(RunnerAction::KillAllAndFinish)));
    assert!(runner.is_finished());
    let later: Command = OverwatchCommand::Relay(RelayCommand {
        service_id: "pong",
        reply_channel: 1,
    });
    assert!(runner.step(later).is_none());
    let again: Command = OverwatchCommand::OverwatchLifeCycle(OverwatchLifeCycleCommand::Kill);
    assert!(runner.step(again).is_none());
    assert!(runner.is_finished());
}

#[test]
fn failed_start_ends_the_runner() {
    let mut runner = OverwatchRunnerState::new();
    assert!(!runner.is_finished());
    assert_eq!(runner.start(Err::<(), &str>("no services")), Err("no services"));
    assert!(runner.is_finished());
    let later: Command = OverwatchCommand::Relay(RelayCommand {
        service_id: "pong",
        reply_channel: 1,
    });
    assert!(runner.step(later).is_none());
}
