use vstd::prelude::*;

use crate::overwatch::commands::{
    OverwatchCommand, RelayCommand, ServiceLifeCycleCommand, SettingsCommand, StatusCommand,
};
use crate::services::life_cycle::LifecycleMessage;
use crate::services::ServiceId;

verus! {

/// What the runner does for one command.
#[derive(Debug)]
pub enum RunnerAction<RelayReply, StatusReply, Signal, Settings> {
    /// Answer a relay request.
    HandleRelay(RelayCommand<RelayReply>),
    /// Answer a status watcher request.
    HandleStatus(StatusCommand<StatusReply>),
    /// Forward a shutdown to one service, with the channel for its completion signal.
    ShutdownService { service_id: ServiceId, signal: Signal },
    /// Forward a kill to one service.
    KillService { service_id: ServiceId },
    /// Hand new settings to the services.
    UpdateSettings(SettingsCommand<Settings>),
    /// Kill every service and stop handling commands.
    KillAllAndFinish,
}

/// The action for a command received while the runner is still handling commands.
pub open spec fn action_for<R, S, G, T>(cmd: OverwatchCommand<R, S, G, T>) -> RunnerAction<R, S, G, T> {
    match cmd {
        OverwatchCommand::Relay(c) => RunnerAction::HandleRelay(c),
        OverwatchCommand::Status(c) => RunnerAction::HandleStatus(c),
        OverwatchCommand::ServiceLifeCycle(c) => match c.msg {
            LifecycleMessage::Shutdown(signal) => RunnerAction::ShutdownService {
                service_id: c.service_id,
                signal,
            },
            LifecycleMessage::Kill => RunnerAction::KillService { service_id: c.service_id },
        },
        OverwatchCommand::OverwatchLifeCycle(_) => RunnerAction::KillAllAndFinish,
        OverwatchCommand::Settings(c) => RunnerAction::UpdateSettings(c),
    }
}

/// Whether a command ends the runner: a shutdown or a kill of the runner itself.
pub open spec fn ends_runner<R, S, G, T>(cmd: OverwatchCommand<R, S, G, T>) -> bool {
    cmd is OverwatchLifeCycle
}

/// One step of the runner: from whether it has finished and a command, to whether it has
/// finished afterwards and the action it takes, if any.
pub open spec fn runner_step<R, S, G, T>(finished: bool, cmd: OverwatchCommand<R, S, G, T>) -> (
    bool,
    Option<RunnerAction<R, S, G, T>>,
) {
    if finished {
        (true, None)
    } else {
        (ends_runner(cmd), Some(action_for(cmd)))
    }
}

/// The runner fed a sequence of commands: whether it has finished at the end, and the actions
/// it took, in order.
pub open spec fn runner_run<R, S, G, T>(finished: bool, cmds: Seq<OverwatchCommand<R, S, G, T>>) -> (
    bool,
    Seq<RunnerAction<R, S, G, T>>,
)
    decreases cmds.len(),
{
    if cmds.len() == 0 {
        (finished, Seq::empty())
    } else {
        let (next, action) = runner_step(finished, cmds[0]);
        let (end, rest) = runner_run(next, cmds.drop_first());
        match action {
            Some(a) => (end, seq![a] + rest),
            None => (end, rest),
        }
    }
}

/// Index of the first command that ends the runner, or the length when none does.
pub open spec fn first_ending<R, S, G, T>(cmds: Seq<OverwatchCommand<R, S, G, T>>) -> nat
    decreases cmds.len(),
{
    if cmds.len() == 0 {
        0
    } else if ends_runner(cmds[0]) {
        0
    } else {
        1 + first_ending(cmds.drop_first())
    }
}

/// The runner: it starts the services once, before any command; when they fail to start it
/// is finished at once. Once started, it hands each command to an action until a shutdown or
/// kill of the runner arrives; after that it handles nothing more.
pub struct OverwatchRunnerState {
    started: bool,
    finished: bool,
}

impl OverwatchRunnerState {
    pub closed spec fn is_started_spec(&self) -> bool {
        self.started
    }

    pub closed spec fn is_finished_spec(&self) -> bool {
        self.finished
    }

    /// A runner whose services are not started yet.
    pub fn new() -> (r: Self)
        ensures
            !r.is_started_spec(),
            !r.is_finished_spec(),
    {
        OverwatchRunnerState { started: false, finished: false }
    }

    /// Records the outcome of starting the services, which happens once, before any command:
    /// on success the runner handles commands; on failure it is finished and handles none.
    /// Gives the outcome back.
    pub fn start<H, E>(&mut self, outcome: Result<H, E>) -> (r: Result<H, E>)
        requires
            !old(self).is_started_spec(),
            !old(self).is_finished_spec(),
        ensures
            r == outcome,
            final(self).is_started_spec() == outcome is Ok,
            final(self).is_finished_spec() == outcome is Err,
    {
        match outcome {
            Ok(handles) => {
                self.started = true;
                Ok(handles)
            },
            Err(e) => {
                self.finished = true;
                Err(e)
            },
        }
    }

    /// Whether the runner has stopped handling commands.
    pub fn is_finished(&self) -> (r: bool)
        ensures
            r == self.is_finished_spec(),
    {
        self.finished
    }

    /// Handles one command, which comes after the start: the action to take, or `None` once
    /// the runner has finished.
    pub fn step<R, S, G, T>(&mut self, cmd: OverwatchCommand<R, S, G, T>) -> (r: Option<
        RunnerAction<R, S, G, T>,
    >)
        requires
            old(self).is_started_spec() || old(self).is_finished_spec(),
        ensures
            final(self).is_started_spec() == old(self).is_started_spec(),
            (final(self).is_finished_spec(), r) == runner_step(old(self).is_finished_spec(), cmd),
    {
        if self.finished {
            return None;
        }
        let action = match cmd {
            OverwatchCommand::Relay(c) => RunnerAction::HandleRelay(c),
            OverwatchCommand::Status(c) => RunnerAction::HandleStatus(c),
            OverwatchCommand::ServiceLifeCycle(c) => {
                let ServiceLifeCycleCommand { service_id, msg } = c;
                match msg {
                    LifecycleMessage::Shutdown(signal) => RunnerAction::ShutdownService {
                        service_id,
                        signal,
                    },
                    LifecycleMessage::Kill => RunnerAction::KillService { service_id },
                }
            },
            OverwatchCommand::OverwatchLifeCycle(_) => {
                self.finished = true;
                RunnerAction::KillAllAndFinish
            },
            OverwatchCommand::Settings(c) => RunnerAction::UpdateSettings(c),
        };
        Some(action)
    }
}

/// The runner over its whole life: starting the services (`started` tells whether that
/// succeeded), then fed a sequence of commands. Whether it has finished at the end, and the
/// actions it took.
pub open spec fn runner_life<R, S, G, T>(started: bool, cmds: Seq<OverwatchCommand<R, S, G, T>>) -> (
    bool,
    Seq<RunnerAction<R, S, G, T>>,
) {
    runner_run(!started, cmds)
}

/// When the services fail to start, the runner is finished and handles no command; when
/// they start, it handles exactly the commands up to and including the first shutdown or
/// kill of the runner, each by its action, in order.
pub proof fn lemma_runner_life<R, S, G, T>(started: bool, cmds: Seq<OverwatchCommand<R, S, G, T>>)
    ensures
        !started ==> runner_life(started, cmds) == (true, Seq::<RunnerAction<R, S, G, T>>::empty()),
        started ==> ({
            let (end, actions) = runner_life(started, cmds);
            let k = first_ending(cmds);
            &&& end == (k < cmds.len())
            &&& actions.len() == (if k < cmds.len() { k + 1 } else { k })
            &&& forall|i: int| 0 <= i < actions.len() ==> actions[i] == action_for(#[trigger] cmds[i])
        }),
{
    if started {
        lemma_runner_handles_prefix(cmds);
    } else {
        lemma_finished_runner_is_inert(cmds);
    }
}

/// A runner that has finished handles no further command, whatever arrives.
pub proof fn lemma_finished_runner_is_inert<R, S, G, T>(cmds: Seq<OverwatchCommand<R, S, G, T>>)
    ensures
        runner_run(true, cmds) == (true, Seq::<RunnerAction<R, S, G, T>>::empty()),
    decreases cmds.len(),
{
    if cmds.len() > 0 {
        lemma_finished_runner_is_inert(cmds.drop_first());
    }
}

/// A running runner handles exactly the commands up to and including the first shutdown or
/// kill of the runner, each by its action, in order; it has finished at the end exactly when
/// such a command arrived, and then its last action kills all services.
pub proof fn lemma_runner_handles_prefix<R, S, G, T>(cmds: Seq<OverwatchCommand<R, S, G, T>>)
    ensures
        ({
            let (end, actions) = runner_run(false, cmds);
            let k: nat = first_ending(cmds);
            &&& k <= cmds.len()
            &&& end == (k < cmds.len())
            &&& actions.len() == (if k < cmds.len() { k + 1 } else { k })
            &&& forall|i: int| 0 <= i < actions.len() ==> actions[i] == action_for(#[trigger] cmds[i])
            &&& k < cmds.len() ==> actions[k as int] is KillAllAndFinish
        }),
    decreases cmds.len(),
{
    if cmds.len() > 0 {
        let rest = cmds.drop_first();
        if ends_runner(cmds[0]) {
            lemma_finished_runner_is_inert(rest);
            let (end, actions) = runner_run(false, cmds);
            assert(actions =~= seq![action_for(cmds[0])]);
        } else {
            lemma_runner_handles_prefix(rest);
            let (end, actions) = runner_run(false, cmds);
            let (end2, actions2) = runner_run(false, rest);
            assert(actions =~= seq![action_for(cmds[0])] + actions2);
            assert forall|i: int| 0 <= i < actions.len() implies actions[i] == action_for(
                #[trigger] cmds[i],
            ) by {
                if i > 0 {
                    assert(actions[i] == actions2[i - 1]);
                    assert(cmds[i] == rest[i - 1]);
                }
            }
        }
    }
}

} // verus!
