//! The ping-pong application: a ping service sends a ping every second to a pong service,
//! which answers each with a pong; the ping service counts the pongs, saves the count as its
//! state, and ends the application after enough of them.
use vstd::prelude::*;

use crate::services::relay::RelayMessage;
use crate::services::state::ServiceState;

verus! {

/// Messages the ping service receives.
#[derive(Debug, Clone, Copy, PartialEq, Eq, Structural)]
pub enum PingMessage {
    Pong,
}

impl RelayMessage for PingMessage {}

/// Messages the pong service receives.
#[derive(Debug, Clone, Copy, PartialEq, Eq, Structural)]
pub enum PongMessage {
    Ping,
}

impl RelayMessage for PongMessage {}

/// Settings of the ping service: where its state is saved.
#[derive(Debug, Clone)]
pub struct PingSettings {
    pub state_save_path: String,
}

/// Errors of building the ping state; there are none.
pub type PingStateError = std::convert::Infallible;

/// State of the ping service: the number of pongs received.
#[derive(Debug, Clone, Copy, PartialEq, Eq, Structural)]
pub struct PingState {
    pub pong_count: u32,
}

impl Default for PingState {
    fn default() -> (r: Self)
        ensures
            r.pong_count == 0,
    {
        PingState { pong_count: 0 }
    }
}

impl ServiceState for PingState {
    type Settings = PingSettings;
    type Error = PingStateError;

    fn from_settings(_settings: &Self::Settings) -> (r: Result<Self, Self::Error>)
        ensures
            r == Ok::<PingState, PingStateError>(PingState { pong_count: 0 }),
    {
        Ok(PingState::default())
    }
}

/// Settings of the whole application.
#[derive(Debug)]
pub struct PingPongServiceSettings {
    pub ping: PingSettings,
    pub pong: (),
}

impl Clone for PingPongServiceSettings {
    fn clone(&self) -> (r: Self)
        ensures
            r.ping.state_save_path@ == self.ping.state_save_path@,
    {
        PingPongServiceSettings {
            ping: PingSettings { state_save_path: self.ping.state_save_path.clone() },
            pong: (),
        }
    }
}

/// Number of pongs after which the ping service ends the application.
pub const PONG_LIMIT: u32 = 30;

/// What happens to the ping service.
#[derive(Debug, Clone, Copy, PartialEq, Eq, Structural)]
pub enum PingEvent {
    /// A second has passed.
    Tick,
    /// A message arrived.
    Received(PingMessage),
    /// The service checks whether it has received enough pongs.
    LimitCheck,
}

/// What the ping service does.
#[derive(Debug, Clone, Copy, PartialEq, Eq, Structural)]
pub enum PingAction {
    /// Send this message to the pong service.
    Send(PongMessage),
    /// Save this state.
    Save(PingState),
    /// End the application.
    Exit,
}

/// One step of the ping service: from its pong count and an event, to its pong count
/// afterwards and what it does, if anything.
pub open spec fn ping_step(count: u32, event: PingEvent) -> (int, Option<PingAction>) {
    match event {
        PingEvent::Tick => (count as int, Some(PingAction::Send(PongMessage::Ping))),
        PingEvent::Received(PingMessage::Pong) => (
            count + 1,
            Some(PingAction::Save(PingState { pong_count: (count + 1) as u32 })),
        ),
        PingEvent::LimitCheck => (
            count as int,
            if count >= PONG_LIMIT {
                Some(PingAction::Exit)
            } else {
                None
            },
        ),
    }
}

/// The decisions of the ping service.
pub struct PingService {
    pong_count: u32,
}

impl PingService {
    pub closed spec fn count(&self) -> u32 {
        self.pong_count
    }

    /// A ping service that starts from `initial_state`.
    pub fn new(initial_state: PingState) -> (r: Self)
        ensures
            r.count() == initial_state.pong_count,
    {
        PingService { pong_count: initial_state.pong_count }
    }

    /// The number of pongs received, counting those of the state it started from.
    pub fn pong_count(&self) -> (r: u32)
        ensures
            r == self.count(),
    {
        self.pong_count
    }

    /// Whether enough pongs have been received to end the application; the limit check
    /// only comes up then.
    pub fn limit_reached(&self) -> (r: bool)
        ensures
            r == (self.count() >= PONG_LIMIT),
    {
        self.pong_count >= PONG_LIMIT
    }

    /// Handles one event.
    pub fn step(&mut self, event: PingEvent) -> (r: Option<PingAction>)
        requires
            event == PingEvent::Received(PingMessage::Pong) ==> old(self).count() < u32::MAX,
        ensures
            (final(self).count() as int, r) == ping_step(old(self).count(), event),
            event == PingEvent::LimitCheck ==> final(self).count() == old(self).count() && (r
                == Some(PingAction::Exit) <==> old(self).count() >= PONG_LIMIT) && (r is None
                <==> old(self).count() < PONG_LIMIT),
    {
        match event {
            PingEvent::Tick => Some(PingAction::Send(PongMessage::Ping)),
            PingEvent::Received(PingMessage::Pong) => {
                self.pong_count = self.pong_count + 1;
                Some(PingAction::Save(PingState { pong_count: self.pong_count }))
            },
            PingEvent::LimitCheck => {
                if self.pong_count >= PONG_LIMIT {
                    Some(PingAction::Exit)
                } else {
                    None
                }
            },
        }
    }
}

/// The answer of the pong service to a message: a pong for each ping.
pub fn pong_reply(message: PongMessage) -> (r: PingMessage)
    ensures
        r == PingMessage::Pong,
{
    match message {
        PongMessage::Ping => PingMessage::Pong,
    }
}

/// A limit check ends the application exactly from the limit on: for every count at or
/// above the limit it exits, for every count below it does nothing, and once it would exit at
/// a count it would exit at every larger one.
pub proof fn lemma_limit_check_exits_from_limit(count: u32, larger: u32)
    ensures
        count >= PONG_LIMIT ==> ping_step(count, PingEvent::LimitCheck).1 == Some(
            PingAction::Exit,
        ),
        count < PONG_LIMIT ==> ping_step(count, PingEvent::LimitCheck).1 is None,
        ping_step(count, PingEvent::LimitCheck).0 == count,
        count <= larger && ping_step(count, PingEvent::LimitCheck).1 == Some(PingAction::Exit)
            ==> ping_step(larger, PingEvent::LimitCheck).1 == Some(PingAction::Exit),
{
}

/// Number of pongs among a sequence of events.
pub open spec fn pongs_in(events: Seq<PingEvent>) -> nat
    decreases events.len(),
{
    if events.len() == 0 {
        0
    } else {
        (if events.last() == PingEvent::Received(PingMessage::Pong) {
            1nat
        } else {
            0nat
        }) + pongs_in(events.drop_last())
    }
}

/// The ping service fed a sequence of events: its pong count at the end, and what it did.
pub open spec fn ping_run(count: u32, events: Seq<PingEvent>) -> (int, Seq<PingAction>)
    decreases events.len(),
{
    if events.len() == 0 {
        (count as int, Seq::empty())
    } else {
        let (c, acts) = ping_run(count, events.drop_last());
        let (c2, a) = ping_step(c as u32, events.last());
        match a {
            Some(x) => (c2, acts.push(x)),
            None => (c2, acts),
        }
    }
}

/// The ping count goes up by one for each pong and by nothing else, and every state the
/// service saves holds the count at that moment.
pub proof fn lemma_ping_counts_pongs(count: u32, events: Seq<PingEvent>)
    requires
        count + pongs_in(events) <= u32::MAX,
    ensures
        ping_run(count, events).0 == count + pongs_in(events),
        forall|i: int|
            0 <= i < ping_run(count, events).1.len() ==> (#[trigger] ping_run(count, events).1[i] matches PingAction::Save(s) ==> count
                < s.pong_count <= count + pongs_in(events)),
        forall|i: int|
            0 <= i < ping_run(count, events).1.len() ==> (#[trigger] ping_run(count, events).1[i] == PingAction::Exit ==> exists|j: int|
                0 <= j <= events.len() && count + pongs_in(events.take(j)) >= PONG_LIMIT),
    decreases events.len(),
{
    if events.len() > 0 {
        let prefix = events.drop_last();
        lemma_ping_counts_pongs(count, prefix);
        let (c, acts) = ping_run(count, prefix);
        let (end, all) = ping_run(count, events);
        assert(events.take(events.len() as int) =~= events);
        assert forall|i: int| 0 <= i < all.len() implies (#[trigger] all[i] matches PingAction::Save(
            s,
        ) ==> count < s.pong_count <= count + pongs_in(events)) by {
            if i < acts.len() {
                assert(all[i] == acts[i]);
            }
        }
        assert forall|i: int| 0 <= i < all.len() implies (#[trigger] all[i] == PingAction::Exit
            ==> exists|j: int| 0 <= j <= events.len() && count + pongs_in(events.take(j)) >= PONG_LIMIT) by {
            if i < acts.len() {
                assert(all[i] == acts[i]);
                if all[i] == PingAction::Exit {
                    let j: int = choose|j: int| 0 <= j <= prefix.len() && count + pongs_in(prefix.take(j)) >= PONG_LIMIT;
                    assert(events.take(j) =~= prefix.take(j));
                }
            } else if all[i] == PingAction::Exit {
                assert(events.take(prefix.len() as int) =~= prefix);
            }
        }
    }
}

} // verus!
