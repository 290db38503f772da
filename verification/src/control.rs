use vstd::prelude::*;

use crate::common::CubIpRelayAction;
use crate::config::Timeout;
use crate::mqtt_client::{command_for, Topics};

verus! {

/// Half a second: how long the bridge waits before it checks or tries again.
pub open spec fn half_second() -> Timeout {
    Timeout { secs: 0, nanos: 500_000_000 }
}

fn half_second_exec() -> (t: Timeout)
    ensures
        t == half_second(),
{
    Timeout { secs: 0, nanos: 500_000_000 }
}

// ---------------------------------------------------------------------------
// Polling the device
// ---------------------------------------------------------------------------

/// A step of the loop that polls the device for its status.
#[derive(Debug, Clone, Copy, PartialEq, Eq)]
pub enum PollStep {
    /// Ask whether the broker is connected; answered by `ConnectionChecked`.
    CheckConnection,
    /// Request the status and hand it to the publisher; answered by `Delivered`.
    RequestStatus,
    /// Wait this long.
    Sleep(Timeout),
    /// End the loop.
    Stop,
}

/// What the polling loop learns.
#[derive(Debug, Clone, Copy, PartialEq, Eq)]
pub enum PollEvent {
    /// The loop begins.
    Started,
    /// Whether the broker is connected.
    ConnectionChecked(bool),
    /// Whether the status reached the publisher.
    Delivered(bool),
}

/// The steps that follow an event: the status is requested only while the
/// broker is connected, the loop waits `request_timeout` between two checks,
/// and it ends when a status can no longer be handed on.
pub open spec fn poll_steps(request_timeout: Timeout, event: PollEvent) -> Seq<PollStep> {
    match event {
        PollEvent::Started => seq![PollStep::CheckConnection],
        PollEvent::ConnectionChecked(true) => seq![PollStep::RequestStatus],
        PollEvent::ConnectionChecked(false) => seq![
            PollStep::Sleep(request_timeout),
            PollStep::CheckConnection,
        ],
        PollEvent::Delivered(true) => seq![
            PollStep::Sleep(request_timeout),
            PollStep::CheckConnection,
        ],
        PollEvent::Delivered(false) => seq![PollStep::Stop],
    }
}

/// The steps of the polling loop that follow an event.
pub fn next_poll_steps(request_timeout: Timeout, event: PollEvent) -> (r: Vec<PollStep>)
    ensures
        r@ == poll_steps(request_timeout, event),
{
    match event {
        PollEvent::Started => vec![PollStep::CheckConnection],
        PollEvent::ConnectionChecked(true) => vec![PollStep::RequestStatus],
        PollEvent::ConnectionChecked(false) => vec![
            PollStep::Sleep(request_timeout),
            PollStep::CheckConnection,
        ],
        PollEvent::Delivered(true) => vec![
            PollStep::Sleep(request_timeout),
            PollStep::CheckConnection,
        ],
        PollEvent::Delivered(false) => vec![PollStep::Stop],
    }
}

/// The device is asked for its status only right after the broker was found
/// connected, and the loop ends only when a status could not be handed on.
pub proof fn lemma_poll_only_while_connected(request_timeout: Timeout, event: PollEvent)
    ensures
        poll_steps(request_timeout, event).contains(PollStep::RequestStatus) <==> event
            == PollEvent::ConnectionChecked(true),
        poll_steps(request_timeout, event).contains(PollStep::Stop) <==> event
            == PollEvent::Delivered(false),
{
    let steps = poll_steps(request_timeout, event);
    if steps.contains(PollStep::RequestStatus) || steps.contains(PollStep::Stop) {
        let i = choose|i: int| 0 <= i < steps.len() && (steps[i] == PollStep::RequestStatus
            || steps[i] == PollStep::Stop);
        assert(0 <= i < steps.len());
    }
    if event == PollEvent::ConnectionChecked(true) {
        assert(steps[0] == PollStep::RequestStatus);
    }
    if event == PollEvent::Delivered(false) {
        assert(steps[0] == PollStep::Stop);
    }
}

/// Between two polls the loop waits exactly the configured request timeout,
/// seconds and fraction of a second alike: after a status was handed on and
/// after a check that found the broker away, and at no other point.
pub proof fn lemma_poll_waits_request_timeout(request_timeout: Timeout, event: PollEvent)
    ensures
        poll_steps(request_timeout, PollEvent::Delivered(true)) == seq![
            PollStep::Sleep(request_timeout),
            PollStep::CheckConnection,
        ],
        poll_steps(request_timeout, PollEvent::ConnectionChecked(false)) == seq![
            PollStep::Sleep(request_timeout),
            PollStep::CheckConnection,
        ],
        forall|wait: Timeout|
            #[trigger] poll_steps(request_timeout, event).contains(PollStep::Sleep(wait)) ==> wait
                == request_timeout,
        poll_steps(request_timeout, event).contains(PollStep::Sleep(request_timeout)) <==> (event
            == PollEvent::Delivered(true) || event == PollEvent::ConnectionChecked(false)),
{
    let steps = poll_steps(request_timeout, event);
    assert forall|wait: Timeout| #[trigger] steps.contains(PollStep::Sleep(wait)) implies wait
        == request_timeout by {
        let i = choose|i: int| 0 <= i < steps.len() && steps[i] == PollStep::Sleep(wait);
        assert(0 <= i < steps.len());
    }
    if event == PollEvent::Delivered(true) || event == PollEvent::ConnectionChecked(false) {
        assert(steps[0] == PollStep::Sleep(request_timeout));
    }
}

// ---------------------------------------------------------------------------
// The connection to the broker
// ---------------------------------------------------------------------------

/// Where the bridge stands with the broker.
#[derive(Debug, Clone, Copy, PartialEq, Eq)]
pub enum LinkState {
    /// Connecting for the first time.
    Connecting,
    /// Connected; watching the connection.
    Connected,
    /// The connection was lost; reconnecting.
    Reconnecting,
}

/// A step of the loop that keeps the bridge connected.
#[derive(Debug, Clone, Copy, PartialEq, Eq)]
pub enum LinkStep {
    /// Connect; answered by `ConnectDone`.
    Connect,
    /// Reconnect; answered by `ReconnectDone`.
    Reconnect,
    /// Publish the version of the bridge on the version topic.
    PublishVersion,
    /// Have the publisher publish every value anew.
    ResetPrevValues,
    /// Wait this long.
    Sleep(Timeout),
    /// Ask whether the broker is connected; answered by `ConnectionChecked`.
    CheckConnection,
}

/// What the connection loop learns.
#[derive(Debug, Clone, Copy, PartialEq, Eq)]
pub enum LinkEvent {
    ConnectDone(bool),
    ReconnectDone(bool),
    ConnectionChecked(bool),
}

/// The step that a state waits on, repeated after an event that it does not
/// wait for.
pub open spec fn link_awaited(state: LinkState) -> Seq<LinkStep> {
    match state {
        LinkState::Connecting => seq![LinkStep::Connect],
        LinkState::Connected => seq![LinkStep::CheckConnection],
        LinkState::Reconnecting => seq![LinkStep::Reconnect],
    }
}

/// The state and the steps that follow an event. A failed connection or
/// reconnection is tried again after half a second. A new connection publishes
/// the version; a restored one publishes the version and has every value
/// published anew. A live connection is checked every half second.
pub open spec fn link_next(state: LinkState, event: LinkEvent) -> (LinkState, Seq<LinkStep>) {
    match (state, event) {
        (LinkState::Connecting, LinkEvent::ConnectDone(false)) => (
            LinkState::Connecting,
            seq![LinkStep::Sleep(half_second()), LinkStep::Connect],
        ),
        (LinkState::Connecting, LinkEvent::ConnectDone(true)) => (
            LinkState::Connected,
            seq![LinkStep::PublishVersion, LinkStep::CheckConnection],
        ),
        (LinkState::Connected, LinkEvent::ConnectionChecked(true)) => (
            LinkState::Connected,
            seq![LinkStep::Sleep(half_second()), LinkStep::CheckConnection],
        ),
        (LinkState::Connected, LinkEvent::ConnectionChecked(false)) => (
            LinkState::Reconnecting,
            seq![LinkStep::Reconnect],
        ),
        (LinkState::Reconnecting, LinkEvent::ReconnectDone(false)) => (
            LinkState::Reconnecting,
            seq![LinkStep::Sleep(half_second()), LinkStep::Reconnect],
        ),
        (LinkState::Reconnecting, LinkEvent::ReconnectDone(true)) => (
            LinkState::Connected,
            seq![
                LinkStep::PublishVersion,
                LinkStep::ResetPrevValues,
                LinkStep::Sleep(half_second()),
                LinkStep::CheckConnection,
            ],
        ),
        _ => (state, link_awaited(state)),
    }
}

/// The state and the steps that begin the connection loop.
pub fn link_start() -> (r: (LinkState, Vec<LinkStep>))
    ensures
        r.0 == LinkState::Connecting,
        r.1@ == seq![LinkStep::Connect],
{
    (LinkState::Connecting, vec![LinkStep::Connect])
}

/// The state and the steps of the connection loop that follow an event.
pub fn link_step(state: LinkState, event: LinkEvent) -> (r: (LinkState, Vec<LinkStep>))
    ensures
        r.0 == link_next(state, event).0,
        r.1@ == link_next(state, event).1,
{
    match (state, event) {
        (LinkState::Connecting, LinkEvent::ConnectDone(false)) => (
            LinkState::Connecting,
            vec![LinkStep::Sleep(half_second_exec()), LinkStep::Connect],
        ),
        (LinkState::Connecting, LinkEvent::ConnectDone(true)) => (
            LinkState::Connected,
            vec![LinkStep::PublishVersion, LinkStep::CheckConnection],
        ),
        (LinkState::Connected, LinkEvent::ConnectionChecked(true)) => (
            LinkState::Connected,
            vec![LinkStep::Sleep(half_second_exec()), LinkStep::CheckConnection],
        ),
        (LinkState::Connected, LinkEvent::ConnectionChecked(false)) => (
            LinkState::Reconnecting,
            vec![LinkStep::Reconnect],
        ),
        (LinkState::Reconnecting, LinkEvent::ReconnectDone(false)) => (
            LinkState::Reconnecting,
            vec![LinkStep::Sleep(half_second_exec()), LinkStep::Reconnect],
        ),
        (LinkState::Reconnecting, LinkEvent::ReconnectDone(true)) => (
            LinkState::Connected,
            vec![
                LinkStep::PublishVersion,
                LinkStep::ResetPrevValues,
                LinkStep::Sleep(half_second_exec()),
                LinkStep::CheckConnection,
            ],
        ),
        _ => (
            state,
            match state {
                LinkState::Connecting => vec![LinkStep::Connect],
                LinkState::Connected => vec![LinkStep::CheckConnection],
                LinkState::Reconnecting => vec![LinkStep::Reconnect],
            },
        ),
    }
}

/// Values are published anew only right after a restored connection, and only
/// after the version was published on it.
pub proof fn lemma_reset_only_after_reconnect(state: LinkState, event: LinkEvent)
    ensures
        link_next(state, event).1.contains(LinkStep::ResetPrevValues) <==> state
            == LinkState::Reconnecting && event == LinkEvent::ReconnectDone(true),
        link_next(state, event).1.contains(LinkStep::ResetPrevValues) ==> link_next(
            state,
            event,
        ).1[0] == LinkStep::PublishVersion,
{
    let steps = link_next(state, event).1;
    if steps.contains(LinkStep::ResetPrevValues) {
        let i = choose|i: int| 0 <= i < steps.len() && steps[i] == LinkStep::ResetPrevValues;
        assert(0 <= i < steps.len());
    }
    if state == LinkState::Reconnecting && event == LinkEvent::ReconnectDone(true) {
        assert(steps[1] == LinkStep::ResetPrevValues);
    }
}

/// Every wait of the connection loop lasts 500 milliseconds, and it waits after
/// a failed connection, after a failed reconnection and between two checks of
/// a live connection.
pub proof fn lemma_link_waits_half_a_second(state: LinkState, event: LinkEvent)
    ensures
        forall|wait: Timeout|
            #[trigger] link_next(state, event).1.contains(LinkStep::Sleep(wait)) ==> wait
                == (Timeout { secs: 0, nanos: 500_000_000 }),
        link_next(LinkState::Connecting, LinkEvent::ConnectDone(false)).1[0] == LinkStep::Sleep(
            Timeout { secs: 0, nanos: 500_000_000 },
        ),
        link_next(LinkState::Reconnecting, LinkEvent::ReconnectDone(false)).1[0]
            == LinkStep::Sleep(Timeout { secs: 0, nanos: 500_000_000 }),
        link_next(LinkState::Connected, LinkEvent::ConnectionChecked(true)).1[0]
            == LinkStep::Sleep(Timeout { secs: 0, nanos: 500_000_000 }),
{
    let steps = link_next(state, event).1;
    assert forall|wait: Timeout| #[trigger] steps.contains(LinkStep::Sleep(wait)) implies wait
        == (Timeout { secs: 0, nanos: 500_000_000 }) by {
        let i = choose|i: int| 0 <= i < steps.len() && steps[i] == LinkStep::Sleep(wait);
        assert(0 <= i < steps.len());
    }
}

// ---------------------------------------------------------------------------
// Commands from the broker
// ---------------------------------------------------------------------------

/// Where the loop that takes commands stands.
#[derive(Debug, Clone, Copy, PartialEq, Eq)]
pub enum CommandState {
    /// Waiting for the broker to be connected.
    AwaitingConnection,
    /// Subscribing to the command topics.
    Subscribing,
    /// Taking messages.
    Listening,
    /// The connection was lost; waiting for it to be back.
    Reconnecting,
}

/// A step of the loop that takes commands.
#[derive(Debug, Clone, Copy, PartialEq, Eq)]
pub enum CommandStep {
    /// Ask whether the broker is connected; answered by `ConnectionChecked`.
    CheckConnection,
    /// Wait this long.
    Sleep(Timeout),
    /// Subscribe to the three command topics; answered by `SubscribeDone`.
    Subscribe,
    /// Take the next message; answered by `Received`, `Disconnected` or `StreamEnded`.
    Receive,
    /// Ask the device for this action.
    Request(CubIpRelayAction),
    /// Pass over a message that is no command.
    Ignore,
    /// End the loop.
    Exit,
}

/// What the command loop learns.
#[derive(Debug, Clone, PartialEq, Eq)]
pub enum CommandEvent {
    ConnectionChecked(bool),
    SubscribeDone(bool),
    /// A message with its topic and payload.
    Received(String, Vec<u8>),
    /// The connection was lost.
    Disconnected,
    /// No more messages will come.
    StreamEnded,
}

/// The step that a state waits on, repeated after an event that it does not
/// wait for.
pub open spec fn command_awaited(state: CommandState) -> Seq<CommandStep> {
    match state {
        CommandState::AwaitingConnection => seq![CommandStep::CheckConnection],
        CommandState::Subscribing => seq![CommandStep::Subscribe],
        CommandState::Listening => seq![CommandStep::Receive],
        CommandState::Reconnecting => seq![CommandStep::CheckConnection],
    }
}

/// The state and the steps that follow an event. The loop waits in steps of
/// half a second for the broker, subscribes until that succeeds, then asks the
/// device for the action of each command message and passes over any other;
/// after a lost connection it waits for the broker again and goes on taking
/// messages; it ends with the messages.
pub open spec fn command_next(topics: Topics, state: CommandState, event: CommandEvent) -> (
    CommandState,
    Seq<CommandStep>,
) {
    match (state, event) {
        (CommandState::AwaitingConnection, CommandEvent::ConnectionChecked(false)) => (
            CommandState::AwaitingConnection,
            seq![CommandStep::Sleep(half_second()), CommandStep::CheckConnection],
        ),
        (CommandState::AwaitingConnection, CommandEvent::ConnectionChecked(true)) => (
            CommandState::Subscribing,
            seq![CommandStep::Subscribe],
        ),
        (CommandState::Subscribing, CommandEvent::SubscribeDone(false)) => (
            CommandState::Subscribing,
            seq![CommandStep::Subscribe],
        ),
        (CommandState::Subscribing, CommandEvent::SubscribeDone(true)) => (
            CommandState::Listening,
            seq![CommandStep::Receive],
        ),
        (CommandState::Listening, CommandEvent::Received(topic, payload)) => (
            CommandState::Listening,
            match command_for(topics, topic@, payload@) {
                Some(action) => seq![CommandStep::Request(action), CommandStep::Receive],
                None => seq![CommandStep::Ignore, CommandStep::Receive],
            },
        ),
        (CommandState::Listening, CommandEvent::Disconnected) => (
            CommandState::Reconnecting,
            seq![CommandStep::CheckConnection],
        ),
        (CommandState::Listening, CommandEvent::StreamEnded) => (
            CommandState::Listening,
            seq![CommandStep::Exit],
        ),
        (CommandState::Reconnecting, CommandEvent::ConnectionChecked(false)) => (
            CommandState::Reconnecting,
            seq![CommandStep::Sleep(half_second()), CommandStep::CheckConnection],
        ),
        (CommandState::Reconnecting, CommandEvent::ConnectionChecked(true)) => (
            CommandState::Listening,
            seq![CommandStep::Receive],
        ),
        _ => (state, command_awaited(state)),
    }
}

/// The state and the steps that begin the command loop.
pub fn command_start() -> (r: (CommandState, Vec<CommandStep>))
    ensures
        r.0 == CommandState::AwaitingConnection,
        r.1@ == seq![CommandStep::CheckConnection],
{
    (CommandState::AwaitingConnection, vec![CommandStep::CheckConnection])
}

/// The state and the steps of the command loop that follow an event.
pub fn command_step(topics: &Topics, state: CommandState, event: CommandEvent) -> (r: (
    CommandState,
    Vec<CommandStep>,
))
    ensures
        r.0 == command_next(*topics, state, event).0,
        r.1@ == command_next(*topics, state, event).1,
{
    match (state, event) {
        (CommandState::AwaitingConnection, CommandEvent::ConnectionChecked(false)) => (
            CommandState::AwaitingConnection,
            vec![CommandStep::Sleep(half_second_exec()), CommandStep::CheckConnection],
        ),
        (CommandState::AwaitingConnection, CommandEvent::ConnectionChecked(true)) => (
            CommandState::Subscribing,
            vec![CommandStep::Subscribe],
        ),
        (CommandState::Subscribing, CommandEvent::SubscribeDone(false)) => (
            CommandState::Subscribing,
            vec![CommandStep::Subscribe],
        ),
        (CommandState::Subscribing, CommandEvent::SubscribeDone(true)) => (
            CommandState::Listening,
            vec![CommandStep::Receive],
        ),
        (CommandState::Listening, CommandEvent::Received(topic, payload)) => (
            CommandState::Listening,
            match topics.command(topic.as_str(), payload.as_slice()) {
                Some(action) => vec![CommandStep::Request(action), CommandStep::Receive],
                None => vec![CommandStep::Ignore, CommandStep::Receive],
            },
        ),
        (CommandState::Listening, CommandEvent::Disconnected) => (
            CommandState::Reconnecting,
            vec![CommandStep::CheckConnection],
        ),
        (CommandState::Listening, CommandEvent::StreamEnded) => (
            CommandState::Listening,
            vec![CommandStep::Exit],
        ),
        (CommandState::Reconnecting, CommandEvent::ConnectionChecked(false)) => (
            CommandState::Reconnecting,
            vec![CommandStep::Sleep(half_second_exec()), CommandStep::CheckConnection],
        ),
        (CommandState::Reconnecting, CommandEvent::ConnectionChecked(true)) => (
            CommandState::Listening,
            vec![CommandStep::Receive],
        ),
        _ => (
            state,
            match state {
                CommandState::AwaitingConnection => vec![CommandStep::CheckConnection],
                CommandState::Subscribing => vec![CommandStep::Subscribe],
                CommandState::Listening => vec![CommandStep::Receive],
                CommandState::Reconnecting => vec![CommandStep::CheckConnection],
            },
        ),
    }
}

/// The device is asked for an action only while the loop takes messages, and
/// only for a message that is that command.
pub proof fn lemma_request_only_for_commands(
    topics: Topics,
    state: CommandState,
    event: CommandEvent,
    action: CubIpRelayAction,
)
    ensures
        command_next(topics, state, event).1.contains(CommandStep::Request(action)) <==> {
            &&& state == CommandState::Listening
            &&& event matches CommandEvent::Received(topic, payload)
            &&& command_for(topics, topic@, payload@) == Some(action)
        },
{
    let steps = command_next(topics, state, event).1;
    if steps.contains(CommandStep::Request(action)) {
        let i = choose|i: int| 0 <= i < steps.len() && steps[i] == CommandStep::Request(action);
        assert(0 <= i < steps.len());
    }
    if state == CommandState::Listening {
        if let CommandEvent::Received(topic, payload) = event {
            if command_for(topics, topic@, payload@) == Some(action) {
                assert(steps[0] == CommandStep::Request(action));
            }
        }
    }
}

/// Every wait of the command loop lasts 500 milliseconds, and it waits only
/// while the broker is away, before each new check.
pub proof fn lemma_commands_wait_half_a_second(
    topics: Topics,
    state: CommandState,
    event: CommandEvent,
)
    ensures
        forall|wait: Timeout|
            #[trigger] command_next(topics, state, event).1.contains(CommandStep::Sleep(wait))
                ==> wait == (Timeout { secs: 0, nanos: 500_000_000 }),
        command_next(topics, state, event).1.contains(
            CommandStep::Sleep(Timeout { secs: 0, nanos: 500_000_000 }),
        ) <==> (event == CommandEvent::ConnectionChecked(false) && (state
            == CommandState::AwaitingConnection || state == CommandState::Reconnecting)),
{
    let steps = command_next(topics, state, event).1;
    let half = Timeout { secs: 0, nanos: 500_000_000 };
    assert forall|wait: Timeout| #[trigger] steps.contains(CommandStep::Sleep(wait)) implies wait
        == half by {
        let i = choose|i: int| 0 <= i < steps.len() && steps[i] == CommandStep::Sleep(wait);
        assert(0 <= i < steps.len());
    }
    if event == CommandEvent::ConnectionChecked(false) && (state
        == CommandState::AwaitingConnection || state == CommandState::Reconnecting) {
        assert(steps[0] == CommandStep::Sleep(half));
    }
}

} // verus!
