use cub_ip_app::common::CubIpRelayAction;
use cub_ip_app::mqtt_client::{topic, Topics};

#[test]
fn topics_under_the_main_topic() {
    let t = Topics::new("home");
    assert_eq!(t.temperature, "/home/temperature");
    assert_eq!(t.relay_state, "/home/relay/state");
    assert_eq!(t.relay_cmd, "/home/relay/cmd");
    assert_eq!(t.time_relay_state, "/home/time_relay/state");
    assert_eq!(t.time_relay_turn_on_cmd, "/home/time_relay/cmd/turn_on");
    assert_eq!(t.time_relay_turn_off_cmd, "/home/time_relay/cmd/turn_off");
    assert_eq!(t.pin_1_state, "/home/pin_1/state");
    assert_eq!(t.pin_2_state, "/home/pin_2/state");
    assert_eq!(t.version, "/home/version");
    assert_eq!(topic("a/b", "/c"), "/a/b/c");
}

#[test]
fn relay_commands() {
    let t = Topics::new("home");
    assert_eq!(t.command("/home/relay/cmd", b"0"), Some(CubIpRelayAction::RelayTurnOff));
    assert_eq!(t.command("/home/relay/cmd", b"1"), Some(CubIpRelayAction::RelayTurnOn));
    assert_eq!(t.command("/home/relay/cmd", b"2"), None);
    assert_eq!(t.command("/home/relay/cmd", b"01"), None);
    assert_eq!(t.command("/home/relay/cmd", b""), None);
}

#[test]
fn time_relay_commands() {
    let t = Topics::new("home");
    assert_eq!(
        t.command("/home/time_relay/cmd/turn_on", b"15"),
        Some(CubIpRelayAction::TimeRelayTurnOn(15))
    );
    assert_eq!(
        t.command("/home/time_relay/cmd/turn_off", b"+007"),
        Some(CubIpRelayAction::TimeRelayTurnOff(7))
    );
    assert_eq!(t.command("/home/time_relay/cmd/turn_on", b"-1"), None);
    assert_eq!(t.command("/home/time_relay/cmd/turn_on", b"+"), None);
    assert_eq!(t.command("/home/time_relay/cmd/turn_on", b" 5"), None);
    assert_eq!(t.command("/home/time_relay/cmd/turn_on", b"5s"), None);
    assert_eq!(t.command("/home/time_relay/cmd/turn_on", b"\xff"), None);
    let max = format!("{}", usize::MAX);
    assert_eq!(
        t.command("/home/time_relay/cmd/turn_off", max.as_bytes()),
        Some(CubIpRelayAction::TimeRelayTurnOff(usize::MAX))
    );
    let over = format!("{}0", usize::MAX);
    assert_eq!(t.command("/home/time_relay/cmd/turn_off", over.as_bytes()), None);
}

#[test]
fn other_topics_are_no_commands() {
    let t = Topics::new("home");
    assert_eq!(t.command("/home/relay/state", b"1"), None);
    assert_eq!(t.command("/other/relay/cmd", b"1"), None);
}

#[test]
fn decimal_delay_reads_back() {
    let t = Topics::new("x");
    for n in [0usize, 1, 9, 10, 99, 100, 65535, usize::MAX] {
        let text = n.to_string();
        assert_eq!(
            t.command("/x/time_relay/cmd/turn_on", text.as_bytes()),
            Some(CubIpRelayAction::TimeRelayTurnOn(n))
        );
    }
}
