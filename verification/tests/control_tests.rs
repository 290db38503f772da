use cub_ip_app::common::CubIpRelayAction;
use cub_ip_app::config::Timeout;
use cub_ip_app::control::{
    command_start, command_step, link_start, link_step, next_poll_steps, CommandEvent,
    CommandState, CommandStep, LinkEvent, LinkState, LinkStep, PollEvent, PollStep,
};
use cub_ip_app::mqtt_client::Topics;

const HALF: Timeout = Timeout { secs: 0, nanos: 500_000_000 };

#[test]
fn polling_requests_only_while_connected() {
    let t = Timeout { secs: 10, nanos: 0 };
    assert_eq!(next_poll_steps(t, PollEvent::Started), vec![PollStep::CheckConnection]);
    assert_eq!(
        next_poll_steps(t, PollEvent::ConnectionChecked(true)),
        vec![PollStep::RequestStatus]
    );
    assert_eq!(
        next_poll_steps(t, PollEvent::ConnectionChecked(false)),
        vec![PollStep::Sleep(t), PollStep::CheckConnection]
    );
    assert_eq!(
        next_poll_steps(t, PollEvent::Delivered(true)),
        vec![PollStep::Sleep(t), PollStep::CheckConnection]
    );
    assert_eq!(next_poll_steps(t, PollEvent::Delivered(false)), vec![PollStep::Stop]);
}

#[test]
fn link_connects_and_reconnects() {
    assert_eq!(link_start(), (LinkState::Connecting, vec![LinkStep::Connect]));
    assert_eq!(
        link_step(LinkState::Connecting, LinkEvent::ConnectDone(false)),
        (LinkState::Connecting, vec![LinkStep::Sleep(HALF), LinkStep::Connect])
    );
    assert_eq!(
        link_step(LinkState::Connecting, LinkEvent::ConnectDone(true)),
        (LinkState::Connected, vec![LinkStep::PublishVersion, LinkStep::CheckConnection])
    );
    assert_eq!(
        link_step(LinkState::Connected, LinkEvent::ConnectionChecked(true)),
        (LinkState::Connected, vec![LinkStep::Sleep(HALF), LinkStep::CheckConnection])
    );
    assert_eq!(
        link_step(LinkState::Connected, LinkEvent::ConnectionChecked(false)),
        (LinkState::Reconnecting, vec![LinkStep::Reconnect])
    );
    assert_eq!(
        link_step(LinkState::Reconnecting, LinkEvent::ReconnectDone(false)),
        (LinkState::Reconnecting, vec![LinkStep::Sleep(HALF), LinkStep::Reconnect])
    );
    assert_eq!(
        link_step(LinkState::Reconnecting, LinkEvent::ReconnectDone(true)),
        (
            LinkState::Connected,
            vec![
                LinkStep::PublishVersion,
                LinkStep::ResetPrevValues,
                LinkStep::Sleep(HALF),
                LinkStep::CheckConnection
            ]
        )
    );
    assert_eq!(
        link_step(LinkState::Connected, LinkEvent::ReconnectDone(true)),
        (LinkState::Connected, vec![LinkStep::CheckConnection])
    );
}

#[test]
fn command_loop_subscribes_then_listens() {
    let t = Topics::new("home");
    assert_eq!(
        command_start(),
        (CommandState::AwaitingConnection, vec![CommandStep::CheckConnection])
    );
    assert_eq!(
        command_step(&t, CommandState::AwaitingConnection, CommandEvent::ConnectionChecked(false)),
        (
            CommandState::AwaitingConnection,
            vec![CommandStep::Sleep(HALF), CommandStep::CheckConnection]
        )
    );
    assert_eq!(
        command_step(&t, CommandState::AwaitingConnection, CommandEvent::ConnectionChecked(true)),
        (CommandState::Subscribing, vec![CommandStep::Subscribe])
    );
    assert_eq!(
        command_step(&t, CommandState::Subscribing, CommandEvent::SubscribeDone(false)),
        (CommandState::Subscribing, vec![CommandStep::Subscribe])
    );
    assert_eq!(
        command_step(&t, CommandState::Subscribing, CommandEvent::SubscribeDone(true)),
        (CommandState::Listening, vec![CommandStep::Receive])
    );
}

#[test]
fn command_loop_handles_messages() {
    let t = Topics::new("home");
    assert_eq!(
        command_step(
            &t,
            CommandState::Listening,
            CommandEvent::Received("/home/time_relay/cmd/turn_on".to_string(), b"15".to_vec())
        ),
        (
            CommandState::Listening,
            vec![
                CommandStep::Request(CubIpRelayAction::TimeRelayTurnOn(15)),
                CommandStep::Receive
            ]
        )
    );
    assert_eq!(
        command_step(
            &t,
            CommandState::Listening,
            CommandEvent::Received("/home/relay/cmd".to_string(), b"7".to_vec())
        ),
        (CommandState::Listening, vec![CommandStep::Ignore, CommandStep::Receive])
    );
    assert_eq!(
        command_step(&t, CommandState::Listening, CommandEvent::Disconnected),
        (CommandState::Reconnecting, vec![CommandStep::CheckConnection])
    );
    assert_eq!(
        command_step(&t, CommandState::Reconnecting, CommandEvent::ConnectionChecked(false)),
        (
            CommandState::Reconnecting,
            vec![CommandStep::Sleep(HALF), CommandStep::CheckConnection]
        )
    );
    assert_eq!(
        command_step(&t, CommandState::Reconnecting, CommandEvent::ConnectionChecked(true)),
        (CommandState::Listening, vec![CommandStep::Receive])
    );
    assert_eq!(
        command_step(&t, CommandState::Listening, CommandEvent::StreamEnded),
        (CommandState::Listening, vec![CommandStep::Exit])
    );
    assert_eq!(
        command_step(
            &t,
            CommandState::Subscribing,
            CommandEvent::Received("/home/relay/cmd".to_string(), b"1".to_vec())
        ),
        (CommandState::Subscribing, vec![CommandStep::Subscribe])
    );
}
