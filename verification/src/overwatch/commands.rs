use vstd::prelude::*;

use crate::services::life_cycle::LifecycleMessage;
use crate::services::ServiceId;

verus! {

/// Request for a relay to the service `service_id`; the answer goes back through
/// `reply_channel`.
#[derive(Debug)]
pub struct RelayCommand<Reply> {
    pub service_id: ServiceId,
    pub reply_channel: Reply,
}

/// Request for the status watcher of the service `service_id`; the answer goes back through
/// `reply_channel`.
#[derive(Debug)]
pub struct StatusCommand<Reply> {
    pub service_id: ServiceId,
    pub reply_channel: Reply,
}

/// Life-cycle command for one service.
#[derive(Debug)]
pub struct ServiceLifeCycleCommand<Signal> {
    pub service_id: ServiceId,
    pub msg: LifecycleMessage<Signal>,
}

/// Life-cycle commands for the runner itself.
#[derive(Debug, Clone, Copy, PartialEq, Eq, Structural)]
pub enum OverwatchLifeCycleCommand {
    Shutdown,
    Kill,
}

/// Settings update command: carries the new settings of all services.
#[derive(Debug)]
pub struct SettingsCommand<Settings>(pub Settings);

/// The commands the runner handles. The type parameters are the channels through which the
/// answers go back, the completion signal of a service shutdown, and the settings.
#[derive(Debug)]
pub enum OverwatchCommand<RelayReply, StatusReply, Signal, Settings> {
    Relay(RelayCommand<RelayReply>),
    Status(StatusCommand<StatusReply>),
    ServiceLifeCycle(ServiceLifeCycleCommand<Signal>),
    OverwatchLifeCycle(OverwatchLifeCycleCommand),
    Settings(SettingsCommand<Settings>),
}

} // verus!
