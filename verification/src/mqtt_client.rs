use vstd::prelude::*;

use crate::common::CubIpRelayAction;
use crate::text::{decimal_chars, lemma_decimal_text_reads_back, parse_usize, parsed_usize};
use vstd::utf8::encode_utf8;

verus! {

/// The topic `/{main}{suffix}`.
pub open spec fn topic_under(main: Seq<char>, suffix: Seq<char>) -> Seq<char> {
    "/"@ + main + suffix
}

/// Builds the topic `/{main}{suffix}`.
pub fn topic(main: &str, suffix: &str) -> (t: String)
    ensures
        t@ == topic_under(main@, suffix@),
{
    let mut t = String::from_str("/");
    t.append(main);
    t.append(suffix);
    t
}

/// The MQTT topics of the bridge, all under one main topic.
#[derive(Debug, Clone)]
pub struct Topics {
    /// Temperature of the external sensor.
    pub temperature: String,
    /// Relay state (`0` off, `1` on).
    pub relay_state: String,
    /// Relay commands: `0` or `1`.
    pub relay_cmd: String,
    /// Time relay value.
    pub time_relay_state: String,
    /// Delay in seconds after which to turn the relay on.
    pub time_relay_turn_on_cmd: String,
    /// Delay in seconds after which to turn the relay off.
    pub time_relay_turn_off_cmd: String,
    /// Input pin 1 (`0` open, `1` closed).
    pub pin_1_state: String,
    /// Input pin 2 (`0` open, `1` closed).
    pub pin_2_state: String,
    /// Version of the bridge.
    pub version: String,
}

/// The topics are those under `main`.
pub open spec fn topics_under(t: Topics, main: Seq<char>) -> bool {
    &&& t.temperature@ == topic_under(main, "/temperature"@)
    &&& t.relay_state@ == topic_under(main, "/relay/state"@)
    &&& t.relay_cmd@ == topic_under(main, "/relay/cmd"@)
    &&& t.time_relay_state@ == topic_under(main, "/time_relay/state"@)
    &&& t.time_relay_turn_on_cmd@ == topic_under(main, "/time_relay/cmd/turn_on"@)
    &&& t.time_relay_turn_off_cmd@ == topic_under(main, "/time_relay/cmd/turn_off"@)
    &&& t.pin_1_state@ == topic_under(main, "/pin_1/state"@)
    &&& t.pin_2_state@ == topic_under(main, "/pin_2/state"@)
    &&& t.version@ == topic_under(main, "/version"@)
}

/// Every topic of the bridge is `/`, the main topic, then its own path.
pub proof fn lemma_topic_texts(t: Topics, main: Seq<char>)
    requires
        topics_under(t, main),
    ensures
        t.temperature@ == "/"@ + main + "/temperature"@,
        t.relay_state@ == "/"@ + main + "/relay/state"@,
        t.relay_cmd@ == "/"@ + main + "/relay/cmd"@,
        t.time_relay_state@ == "/"@ + main + "/time_relay/state"@,
        t.time_relay_turn_on_cmd@ == "/"@ + main + "/time_relay/cmd/turn_on"@,
        t.time_relay_turn_off_cmd@ == "/"@ + main + "/time_relay/cmd/turn_off"@,
        t.pin_1_state@ == "/"@ + main + "/pin_1/state"@,
        t.pin_2_state@ == "/"@ + main + "/pin_2/state"@,
        t.version@ == "/"@ + main + "/version"@,
{
}

/// The action that a message on `topic` with `payload` asks for: on the relay
/// command topic the payload `0` or `1`; on a time relay command topic a delay
/// in seconds, written in decimal.
pub open spec fn command_for(t: Topics, topic: Seq<char>, payload: Seq<u8>) -> Option<
    CubIpRelayAction,
> {
    if topic == t.relay_cmd@ {
        if payload == seq![48u8] {
            Some(CubIpRelayAction::RelayTurnOff)
        } else if payload == seq![49u8] {
            Some(CubIpRelayAction::RelayTurnOn)
        } else {
            None
        }
    } else if topic == t.time_relay_turn_on_cmd@ {
        match parsed_usize(payload) {
            Some(n) => Some(CubIpRelayAction::TimeRelayTurnOn(n)),
            None => None,
        }
    } else if topic == t.time_relay_turn_off_cmd@ {
        match parsed_usize(payload) {
            Some(n) => Some(CubIpRelayAction::TimeRelayTurnOff(n)),
            None => None,
        }
    } else {
        None
    }
}

impl Topics {
    /// The topics under `main_topic`.
    pub fn new(main_topic: &str) -> (t: Topics)
        ensures
            topics_under(t, main_topic@),
    {
        Topics {
            temperature: topic(main_topic, "/temperature"),
            relay_state: topic(main_topic, "/relay/state"),
            relay_cmd: topic(main_topic, "/relay/cmd"),
            time_relay_state: topic(main_topic, "/time_relay/state"),
            time_relay_turn_on_cmd: topic(main_topic, "/time_relay/cmd/turn_on"),
            time_relay_turn_off_cmd: topic(main_topic, "/time_relay/cmd/turn_off"),
            pin_1_state: topic(main_topic, "/pin_1/state"),
            pin_2_state: topic(main_topic, "/pin_2/state"),
            version: topic(main_topic, "/version"),
        }
    }

    /// The action that a command message asks for, or `None` for a message that
    /// is no command.
    pub fn command(&self, topic: &str, payload: &[u8]) -> (r: Option<CubIpRelayAction>)
        ensures
            r == command_for(*self, topic@, payload@),
    {
        let topic = topic.to_owned();
        if topic == self.relay_cmd {
            if payload.len() == 1 && payload[0] == 48 {
                assert(payload@ =~= seq![48u8]);
                Some(CubIpRelayAction::RelayTurnOff)
            } else if payload.len() == 1 && payload[0] == 49 {
                assert(payload@ =~= seq![49u8]);
                Some(CubIpRelayAction::RelayTurnOn)
            } else {
                assert(payload@ != seq![48u8]);
                assert(payload@ != seq![49u8]);
                None
            }
        } else if topic == self.time_relay_turn_on_cmd {
            match parse_usize(payload) {
                Some(n) => Some(CubIpRelayAction::TimeRelayTurnOn(n)),
                None => None,
            }
        } else if topic == self.time_relay_turn_off_cmd {
            match parse_usize(payload) {
                Some(n) => Some(CubIpRelayAction::TimeRelayTurnOff(n)),
                None => None,
            }
        } else {
            None
        }
    }
}

/// The three command topics differ from each other and from every topic the
/// bridge publishes on, whatever the main topic: a message is taken as at most
/// one command, and the bridge never takes its own publications as commands.
pub proof fn lemma_command_topics_distinct(t: Topics, main: Seq<char>)
    requires
        topics_under(t, main),
    ensures
        t.relay_cmd@ != t.time_relay_turn_on_cmd@,
        t.relay_cmd@ != t.time_relay_turn_off_cmd@,
        t.time_relay_turn_on_cmd@ != t.time_relay_turn_off_cmd@,
        forall|c: Seq<char>|
            #![trigger c.len()]
            c == t.relay_cmd@ || c == t.time_relay_turn_on_cmd@ || c == t.time_relay_turn_off_cmd@
                ==> c != t.temperature@ && c != t.relay_state@ && c != t.time_relay_state@ && c
                != t.pin_1_state@ && c != t.pin_2_state@ && c != t.version@,
{
    reveal_strlit("/");
    reveal_strlit("/temperature");
    reveal_strlit("/relay/state");
    reveal_strlit("/relay/cmd");
    reveal_strlit("/time_relay/state");
    reveal_strlit("/time_relay/cmd/turn_on");
    reveal_strlit("/time_relay/cmd/turn_off");
    reveal_strlit("/pin_1/state");
    reveal_strlit("/pin_2/state");
    reveal_strlit("/version");
    assert(t.relay_cmd@.len() == main.len() + 11);
    assert(t.time_relay_turn_on_cmd@.len() == main.len() + 24);
    assert(t.time_relay_turn_off_cmd@.len() == main.len() + 25);
}

/// A delay written in decimal on a time relay command topic asks for exactly
/// that delay.
pub proof fn lemma_delay_command_reads_back(t: Topics, main: Seq<char>, n: usize)
    requires
        topics_under(t, main),
    ensures
        command_for(t, t.time_relay_turn_on_cmd@, encode_utf8(decimal_chars(n as nat))) == Some(
            CubIpRelayAction::TimeRelayTurnOn(n),
        ),
        command_for(t, t.time_relay_turn_off_cmd@, encode_utf8(decimal_chars(n as nat))) == Some(
            CubIpRelayAction::TimeRelayTurnOff(n),
        ),
{
    lemma_command_topics_distinct(t, main);
    lemma_decimal_text_reads_back(n);
}

} // verus!
