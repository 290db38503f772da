use vstd::prelude::*;

use crate::common::{CubIpRelayAction, CubIpResponse, StatusError, Task};
use crate::cub_ip_client::relay_parameters;
use crate::mqtt_client::Topics;
use crate::text::decimal_chars;
use vstd::string::StringSliceAdditionalSpecFns;
use vstd::seq_lib::lemma_seq_concat_contains_all_elements;
use vstd::utf8::{
    decode_utf8, decode_utf8_encode_utf8, encode_utf8, encode_utf8_decode_utf8,
    encode_utf8_valid_utf8, is_char_boundary, valid_utf8_split,
};

verus! {

/// Quality of service "at most once".
pub const QOS_0: i32 = 0;

/// Quality of service "at least once".
pub const QOS_1: i32 = 1;

/// A value of the status document that has no published form.
#[derive(Debug, Clone, PartialEq, Eq)]
pub enum DecodeError {
    /// The temperature text; it is neither a reading nor a known marker.
    UnknownTemperature(String),
    /// The relay text; it is none of `0`, `1`, `2`, `3`, `-`.
    UnknownRelay(String),
    /// The pin text; it is none of `Сработка`, `Норма`, `-`.
    UnknownPin(String),
}

// ---------------------------------------------------------------------------
// Values of the status document
// ---------------------------------------------------------------------------

/// The published temperature: `-` for a broken sensor or a missing value, else
/// the text without its last three bytes (the unit `°C`).
pub open spec fn temperature_reading(v: Seq<char>) -> Option<Seq<char>> {
    if v == "Обрыв датчика"@ || v == "-"@ {
        Some("-"@)
    } else if encode_utf8(v).len() > 2 {
        Some(decode_utf8(encode_utf8(v).take(encode_utf8(v).len() - 3)))
    } else {
        None
    }
}

/// The temperature text can be cut where `temperature_reading` cuts it: the cut
/// falls between two characters.
pub open spec fn temperature_decodable(v: Seq<char>) -> bool {
    v == "Обрыв датчика"@ || v == "-"@ || encode_utf8(v).len() <= 2 || is_char_boundary(
        encode_utf8(v),
        encode_utf8(v).len() - 3,
    )
}

/// Whether the temperature text can be cut where `temperature_reading` cuts it.
pub fn is_temperature_decodable(v: &str) -> (r: bool)
    ensures
        r == temperature_decodable(v@),
{
    let owned = v.to_owned();
    if owned == String::from_str("Обрыв датчика") || owned == String::from_str("-") {
        return true;
    }
    let len = v.as_bytes().len();
    len <= 2 || v.is_char_boundary(len - 3)
}

/// The published relay state: `0` off, `1` on, whether set directly or by the
/// time relay; `-` for a missing value.
pub open spec fn relay_reading(v: Seq<char>) -> Option<Seq<char>> {
    if v == "0"@ || v == "2"@ {
        Some("0"@)
    } else if v == "1"@ || v == "3"@ {
        Some("1"@)
    } else if v == "-"@ {
        Some("-"@)
    } else {
        None
    }
}

/// The published pin state: `0` open (`Сработка`), `1` closed (`Норма`), `-` for a
/// missing value.
pub open spec fn pin_reading(v: Seq<char>) -> Option<Seq<char>> {
    if v == "Сработка"@ {
        Some("0"@)
    } else if v == "Норма"@ {
        Some("1"@)
    } else if v == "-"@ {
        Some("-"@)
    } else {
        None
    }
}

/// Turns the temperature text into its published form.
pub fn decode_value_temperature_sensor(v: &str) -> (r: Result<String, DecodeError>)
    requires
        temperature_decodable(v@),
    ensures
        match r {
            Ok(t) => temperature_reading(v@) == Some(t@),
            Err(e) => {
                &&& temperature_reading(v@) is None
                &&& e matches DecodeError::UnknownTemperature(t)
                &&& t@ == v@
            },
        },
{
    let owned = v.to_owned();
    if owned == String::from_str("Обрыв датчика") || owned == String::from_str("-") {
        return Ok(String::from_str("-"));
    }
    let len = v.as_bytes().len();
    if len > 2 {
        let (head, _) = v.split_at(len - 3);
        proof {
            encode_utf8_decode_utf8(head@);
            assert(head.spec_bytes() =~= encode_utf8(v@).take(encode_utf8(v@).len() - 3));
        }
        return Ok(head.to_owned());
    }
    Err(DecodeError::UnknownTemperature(owned))
}

/// Turns the relay text into its published form.
pub fn decode_value_relay_state(v: &str) -> (r: Result<String, DecodeError>)
    ensures
        match r {
            Ok(t) => relay_reading(v@) == Some(t@),
            Err(e) => {
                &&& relay_reading(v@) is None
                &&& e matches DecodeError::UnknownRelay(t)
                &&& t@ == v@
            },
        },
{
    let owned = v.to_owned();
    if owned == String::from_str("0") || owned == String::from_str("2") {
        Ok(String::from_str("0"))
    } else if owned == String::from_str("1") || owned == String::from_str("3") {
        Ok(String::from_str("1"))
    } else if owned == String::from_str("-") {
        Ok(owned)
    } else {
        Err(DecodeError::UnknownRelay(owned))
    }
}

/// Turns the pin text into its published form.
pub fn decode_value_pin_state(v: &str) -> (r: Result<String, DecodeError>)
    ensures
        match r {
            Ok(t) => pin_reading(v@) == Some(t@),
            Err(e) => {
                &&& pin_reading(v@) is None
                &&& e matches DecodeError::UnknownPin(t)
                &&& t@ == v@
            },
        },
{
    let owned = v.to_owned();
    if owned == String::from_str("Сработка") {
        Ok(String::from_str("0"))
    } else if owned == String::from_str("Норма") {
        Ok(String::from_str("1"))
    } else if owned == String::from_str("-") {
        Ok(owned)
    } else {
        Err(DecodeError::UnknownPin(owned))
    }
}

// ---------------------------------------------------------------------------
// Publishing
// ---------------------------------------------------------------------------

/// A retained message to publish.
#[derive(Debug, Clone, PartialEq, Eq)]
pub struct Publication {
    pub topic: String,
    pub payload: String,
    pub qos: i32,
}

/// A publication as plain values: topic, payload, quality of service.
pub open spec fn publication_view(p: Publication) -> (Seq<char>, Seq<char>, i32) {
    (p.topic@, p.payload@, p.qos)
}

/// The publications, in order, as plain values.
pub open spec fn publications_view(ps: Seq<Publication>) -> Seq<(Seq<char>, Seq<char>, i32)> {
    ps.map_values(|p: Publication| publication_view(p))
}

/// One value per published topic; `None` where the value has no published form
/// (or, for the last published values, where none was published yet).
pub struct Readings {
    pub temperature: Option<Seq<char>>,
    pub relay: Option<Seq<char>>,
    pub pin_1: Option<Seq<char>>,
    pub pin_2: Option<Seq<char>>,
    pub time_relay: Option<Seq<char>>,
    pub version: Option<Seq<char>>,
}

/// The text of an optional string.
pub open spec fn opt_view(o: Option<String>) -> Option<Seq<char>> {
    match o {
        Some(s) => Some(s@),
        None => None,
    }
}

/// The status that a response gives: its document, or `-` for every value when
/// there is none.
pub open spec fn status_or_dashes(r: Result<CubIpResponse, StatusError>) -> (
    Seq<char>,
    Seq<char>,
    Seq<char>,
    Seq<char>,
    Seq<char>,
) {
    match r {
        Ok(d) => (d.trm@, d.strel@, d.vle0@, d.vle1@, d.tmrel@),
        Err(_) => ("-"@, "-"@, "-"@, "-"@, "-"@),
    }
}

/// What the version topic shows after a response: `-` where the device could
/// not be reached, else the version of the bridge.
pub open spec fn version_reading(r: Result<CubIpResponse, StatusError>, version: Seq<char>) -> Seq<
    char,
> {
    match r {
        Err(StatusError::Request(_)) => "-"@,
        _ => version,
    }
}

/// The published forms of the values of a response, for a bridge of the given
/// version.
pub open spec fn readings_of(r: Result<CubIpResponse, StatusError>, version: Seq<char>) -> Readings {
    let (trm, strel, vle0, vle1, tmrel) = status_or_dashes(r);
    Readings {
        temperature: temperature_reading(trm),
        relay: relay_reading(strel),
        pin_1: pin_reading(vle0),
        pin_2: pin_reading(vle1),
        time_relay: Some(tmrel),
        version: Some(version_reading(r, version)),
    }
}

/// The response can be decoded: its temperature text, if any, can be cut.
pub open spec fn response_decodable(r: Result<CubIpResponse, StatusError>) -> bool {
    r matches Ok(d) ==> temperature_decodable(d.trm@)
}

/// The value last published on a topic after a new reading: the reading where it
/// has a published form, else the value before.
pub open spec fn latest(prev: Option<Seq<char>>, new: Option<Seq<char>>) -> Option<Seq<char>> {
    match new {
        Some(v) => Some(v),
        None => prev,
    }
}

/// What is published on `topic` for a new reading: the reading, where it has a
/// published form and differs from the value last published there.
pub open spec fn publication_for(
    topic: Seq<char>,
    prev: Option<Seq<char>>,
    new: Option<Seq<char>>,
    qos: i32,
) -> Seq<(Seq<char>, Seq<char>, i32)> {
    match new {
        Some(v) => if prev == Some(v) {
            seq![]
        } else {
            seq![(topic, v, qos)]
        },
        None => seq![],
    }
}

/// The values last published after new readings.
pub open spec fn updated(prev: Readings, new: Readings) -> Readings {
    Readings {
        temperature: latest(prev.temperature, new.temperature),
        relay: latest(prev.relay, new.relay),
        pin_1: latest(prev.pin_1, new.pin_1),
        pin_2: latest(prev.pin_2, new.pin_2),
        time_relay: latest(prev.time_relay, new.time_relay),
        version: latest(prev.version, new.version),
    }
}

/// The topics the status is published on: temperature, relay, pin 1, pin 2,
/// time relay, version.
pub struct StatusTopics {
    pub temperature: Seq<char>,
    pub relay: Seq<char>,
    pub pin_1: Seq<char>,
    pub pin_2: Seq<char>,
    pub time_relay: Seq<char>,
    pub version: Seq<char>,
}

/// What is published for new readings, in the order temperature (at most once),
/// relay, pin 1, pin 2, time relay, version (at least once).
pub open spec fn publications(topics: StatusTopics, prev: Readings, new: Readings) -> Seq<
    (Seq<char>, Seq<char>, i32),
> {
    publication_for(topics.temperature, prev.temperature, new.temperature, QOS_0)
        + publication_for(topics.relay, prev.relay, new.relay, QOS_1) + publication_for(
        topics.pin_1,
        prev.pin_1,
        new.pin_1,
        QOS_1,
    ) + publication_for(topics.pin_2, prev.pin_2, new.pin_2, QOS_1) + publication_for(
        topics.time_relay,
        prev.time_relay,
        new.time_relay,
        QOS_1,
    ) + publication_for(topics.version, prev.version, new.version, QOS_1)
}

/// The values last published after a reconnection: the temperature, relay and
/// pins forgotten, the time relay kept, and the version, which the bridge
/// publishes on connecting.
pub open spec fn reset(prev: Readings, version: Seq<char>) -> Readings {
    Readings {
        temperature: None,
        relay: None,
        pin_1: None,
        pin_2: None,
        time_relay: prev.time_relay,
        version: Some(version),
    }
}

/// Publishes the status of the device: each value, in its published form,
/// whenever it differs from the value last published on its topic; and on the
/// version topic `-` while the device cannot be reached, the version otherwise.
pub struct StatusPublisher {
    pub temperature_topic: String,
    pub relay_topic: String,
    pub pin_1_topic: String,
    pub pin_2_topic: String,
    pub time_relay_topic: String,
    pub version_topic: String,
    /// The version of the bridge.
    pub version: String,
    pub prev_temperature_value: Option<String>,
    pub prev_relay_value: Option<String>,
    pub prev_pin_1_value: Option<String>,
    pub prev_pin_2_value: Option<String>,
    pub prev_time_relay_value: Option<String>,
    pub prev_version_value: Option<String>,
}

impl StatusPublisher {
    /// The topics it publishes on.
    pub open spec fn topics(self) -> StatusTopics {
        StatusTopics {
            temperature: self.temperature_topic@,
            relay: self.relay_topic@,
            pin_1: self.pin_1_topic@,
            pin_2: self.pin_2_topic@,
            time_relay: self.time_relay_topic@,
            version: self.version_topic@,
        }
    }

    /// The values it last published.
    pub open spec fn previous(self) -> Readings {
        Readings {
            temperature: opt_view(self.prev_temperature_value),
            relay: opt_view(self.prev_relay_value),
            pin_1: opt_view(self.prev_pin_1_value),
            pin_2: opt_view(self.prev_pin_2_value),
            time_relay: opt_view(self.prev_time_relay_value),
            version: opt_view(self.prev_version_value),
        }
    }

    /// A publisher on the status and version topics of `topics`, for a bridge of
    /// version `version`, that has published no status yet; the version topic
    /// shows the version, which the bridge publishes on connecting.
    pub fn new(topics: &Topics, version: &str) -> (p: StatusPublisher)
        ensures
            p.topics() == (StatusTopics {
                temperature: topics.temperature@,
                relay: topics.relay_state@,
                pin_1: topics.pin_1_state@,
                pin_2: topics.pin_2_state@,
                time_relay: topics.time_relay_state@,
                version: topics.version@,
            }),
            p.version@ == version@,
            p.previous() == (Readings {
                temperature: None,
                relay: None,
                pin_1: None,
                pin_2: None,
                time_relay: None,
                version: Some(version@),
            }),
    {
        StatusPublisher {
            temperature_topic: topics.temperature.clone(),
            relay_topic: topics.relay_state.clone(),
            pin_1_topic: topics.pin_1_state.clone(),
            pin_2_topic: topics.pin_2_state.clone(),
            time_relay_topic: topics.time_relay_state.clone(),
            version_topic: topics.version.clone(),
            version: version.to_owned(),
            prev_temperature_value: None,
            prev_relay_value: None,
            prev_pin_1_value: None,
            prev_pin_2_value: None,
            prev_time_relay_value: None,
            prev_version_value: Some(version.to_owned()),
        }
    }

    /// Publishes `value` on `topic` if it has a published form that differs from
    /// `prev`, which then becomes that value.
    fn add_message(
        messages: &mut Vec<Publication>,
        topic: &String,
        value: Result<String, DecodeError>,
        prev: &mut Option<String>,
        qos: i32,
    )
        ensures
            publications_view(final(messages)@) == publications_view(old(messages)@)
                + publication_for(
                topic@,
                opt_view(*old(prev)),
                match value {
                    Ok(v) => Some(v@),
                    Err(_) => None,
                },
                qos,
            ),
            opt_view(*final(prev)) == latest(
                opt_view(*old(prev)),
                match value {
                    Ok(v) => Some(v@),
                    Err(_) => None,
                },
            ),
    {
        let ghost before = messages@;
        match value {
            Ok(v) => {
                let same = match prev {
                    Some(p) => *p == v,
                    None => false,
                };
                if same {
                    assert(publications_view(messages@) =~= publications_view(before) + seq![]);
                } else {
                    messages.push(Publication { topic: topic.clone(), payload: v.clone(), qos });
                    assert(publications_view(messages@) =~= publications_view(before) + seq![
                        (topic@, v@, qos),
                    ]);
                }
                *prev = Some(v);
            },
            Err(_) => {
                assert(publications_view(messages@) =~= publications_view(before) + seq![]);
            },
        }
    }

    /// Publishes the status that a response gives.
    pub fn process_response(&mut self, response: Result<CubIpResponse, StatusError>) -> (r: Vec<
        Publication,
    >)
        requires
            response_decodable(response),
        ensures
            final(self).topics() == old(self).topics(),
            final(self).version == old(self).version,
            final(self).previous() == updated(
                old(self).previous(),
                readings_of(response, old(self).version@),
            ),
            publications_view(r@) == publications(
                old(self).topics(),
                old(self).previous(),
                readings_of(response, old(self).version@),
            ),
    {
        let reachable = match &response {
            Err(StatusError::Request(_)) => false,
            _ => true,
        };
        let data = match response {
            Ok(d) => d,
            Err(_) => CubIpResponse {
                tm: String::from_str("-"),
                stv: String::from_str("-"),
                trm: String::from_str("-"),
                hih: String::from_str("-"),
                vle0: String::from_str("-"),
                vle1: String::from_str("-"),
                vle2: String::from_str("-"),
                vle3: String::from_str("-"),
                vle4: String::from_str("-"),
                vle5: String::from_str("-"),
                strel: String::from_str("-"),
                tmrel: String::from_str("-"),
            },
        };
        proof {
            reveal_strlit("-");
            assert(temperature_decodable(data.trm@));
        }
        let mut messages: Vec<Publication> = Vec::new();
        assert(publications_view(messages@) =~= seq![]);
        Self::add_message(
            &mut messages,
            &self.temperature_topic,
            decode_value_temperature_sensor(data.trm.as_str()),
            &mut self.prev_temperature_value,
            QOS_0,
        );
        Self::add_message(
            &mut messages,
            &self.relay_topic,
            decode_value_relay_state(data.strel.as_str()),
            &mut self.prev_relay_value,
            QOS_1,
        );
        Self::add_message(
            &mut messages,
            &self.pin_1_topic,
            decode_value_pin_state(data.vle0.as_str()),
            &mut self.prev_pin_1_value,
            QOS_1,
        );
        Self::add_message(
            &mut messages,
            &self.pin_2_topic,
            decode_value_pin_state(data.vle1.as_str()),
            &mut self.prev_pin_2_value,
            QOS_1,
        );
        Self::add_message(
            &mut messages,
            &self.time_relay_topic,
            Ok(data.tmrel),
            &mut self.prev_time_relay_value,
            QOS_1,
        );
        let shown = if reachable {
            self.version.clone()
        } else {
            String::from_str("-")
        };
        Self::add_message(
            &mut messages,
            &self.version_topic,
            Ok(shown),
            &mut self.prev_version_value,
            QOS_1,
        );
        messages
    }

    /// After a reconnection: forgets the values last published on the
    /// temperature, relay and pin topics, so that the next status publishes them
    /// again, and takes the version as shown, since the bridge publishes it on
    /// connecting.
    pub fn reset_prev_values(&mut self)
        ensures
            final(self).topics() == old(self).topics(),
            final(self).version == old(self).version,
            final(self).previous() == reset(old(self).previous(), old(self).version@),
    {
        self.prev_temperature_value = None;
        self.prev_relay_value = None;
        self.prev_pin_1_value = None;
        self.prev_pin_2_value = None;
        self.prev_version_value = Some(self.version.clone());
    }

    /// Does a task: publishes the status a response gives, or forgets the
    /// values last published.
    pub fn handle(&mut self, task: Task) -> (r: Vec<Publication>)
        requires
            old(self).task_decodable(task),
        ensures
            final(self).topics() == old(self).topics(),
            final(self).version == old(self).version,
            match task {
                Task::Response(response) => {
                    &&& final(self).previous() == updated(
                        old(self).previous(),
                        readings_of(*response, old(self).version@),
                    )
                    &&& publications_view(r@) == publications(
                        old(self).topics(),
                        old(self).previous(),
                        readings_of(*response, old(self).version@),
                    )
                },
                Task::ResetPrevValue => {
                    &&& final(self).previous() == reset(
                        old(self).previous(),
                        old(self).version@,
                    )
                    &&& r@.len() == 0
                },
            },
    {
        match task {
            Task::Response(response) => self.process_response(*response),
            Task::ResetPrevValue => {
                self.reset_prev_values();
                Vec::new()
            },
        }
    }

    /// The task can be done: a response in it can be decoded.
    pub open spec fn task_decodable(self, task: Task) -> bool {
        task matches Task::Response(response) ==> response_decodable(*response)
    }
}

// ---------------------------------------------------------------------------
// Laws
// ---------------------------------------------------------------------------

/// A status that was just published publishes nothing when it comes again, and
/// leaves the values last published as they are.
pub proof fn lemma_same_status_publishes_nothing(
    topics: StatusTopics,
    prev: Readings,
    new: Readings,
)
    ensures
        publications(topics, updated(prev, new), new).len() == 0,
        updated(updated(prev, new), new) == updated(prev, new),
{
    assert(publications(topics, updated(prev, new), new) =~= seq![]);
}

/// After a reconnection, the next status publishes every value of the
/// temperature, relay and pins that has a published form, whatever was
/// published before; the time relay only if its value changed; the version
/// topic only if it must show `-`.
pub proof fn lemma_reset_publishes_again(
    topics: StatusTopics,
    prev: Readings,
    new: Readings,
    version: Seq<char>,
)
    ensures
        publications(topics, reset(prev, version), new) == publication_for(
            topics.temperature,
            None,
            new.temperature,
            QOS_0,
        ) + publication_for(topics.relay, None, new.relay, QOS_1) + publication_for(
            topics.pin_1,
            None,
            new.pin_1,
            QOS_1,
        ) + publication_for(topics.pin_2, None, new.pin_2, QOS_1) + publication_for(
            topics.time_relay,
            prev.time_relay,
            new.time_relay,
            QOS_1,
        ) + publication_for(topics.version, Some(version), new.version, QOS_1),
        new.temperature is Some ==> publication_for(topics.temperature, None, new.temperature, QOS_0)
            == seq![(topics.temperature, new.temperature->0, QOS_0)],
        new.relay is Some ==> publication_for(topics.relay, None, new.relay, QOS_1) == seq![
            (topics.relay, new.relay->0, QOS_1),
        ],
        new.pin_1 is Some ==> publication_for(topics.pin_1, None, new.pin_1, QOS_1) == seq![
            (topics.pin_1, new.pin_1->0, QOS_1),
        ],
        new.pin_2 is Some ==> publication_for(topics.pin_2, None, new.pin_2, QOS_1) == seq![
            (topics.pin_2, new.pin_2->0, QOS_1),
        ],
{
}

/// The version topic shows `-` exactly while the device cannot be reached: a
/// failed request publishes `-` there unless it already shows `-`, and the next
/// response from the device publishes the version again.
pub proof fn lemma_version_shows_reachability(
    topics: StatusTopics,
    prev: Readings,
    message: String,
    answer: Result<CubIpResponse, StatusError>,
    version: Seq<char>,
)
    requires
        !(answer matches Err(StatusError::Request(_))),
        version != "-"@,
    ensures
        readings_of(Err(StatusError::Request(message)), version).version == Some("-"@),
        readings_of(answer, version).version == Some(version),
        prev.version != Some("-"@) ==> publication_for(
            topics.version,
            prev.version,
            readings_of(Err(StatusError::Request(message)), version).version,
            QOS_1,
        ) == seq![(topics.version, "-"@, QOS_1)],
        publication_for(
            topics.version,
            updated(prev, readings_of(Err(StatusError::Request(message)), version)).version,
            readings_of(answer, version).version,
            QOS_1,
        ) == seq![(topics.version, version, QOS_1)],
{
}

/// A value without a published form publishes nothing on its topic and keeps
/// the value last published there.
pub proof fn lemma_unknown_value_keeps_previous(
    topic: Seq<char>,
    prev: Option<Seq<char>>,
    qos: i32,
)
    ensures
        publication_for(topic, prev, None, qos).len() == 0,
        latest(prev, None) == prev,
{
}

/// A response without a status document reads as `-` for every status value
/// (and the version topic as `-` too where the device could not be reached).
pub proof fn lemma_failed_response_publishes_dashes(e: StatusError, version: Seq<char>)
    ensures
        readings_of(Err(e), version) == (Readings {
            temperature: Some("-"@),
            relay: Some("-"@),
            pin_1: Some("-"@),
            pin_2: Some("-"@),
            time_relay: Some("-"@),
            version: Some(version_reading(Err(e), version)),
        }),
{
    reveal_strlit("-");
    reveal_strlit("0");
    reveal_strlit("1");
    reveal_strlit("2");
    reveal_strlit("3");
    reveal_strlit("Сработка");
    reveal_strlit("Норма");
    reveal_strlit("Обрыв датчика");
    assert(status_or_dashes(Err(e)) == ("-"@, "-"@, "-"@, "-"@, "-"@));
    assert(temperature_reading("-"@) == Some("-"@));
    assert(relay_reading("-"@) == Some("-"@));
    assert(pin_reading("-"@) == Some("-"@));
}

/// The relay state that the device reports for the code a relay action sends is
/// the state that the action sets: on (`1`) for the two turn-on actions, off
/// (`0`) for the two turn-off actions.
pub proof fn lemma_relay_code_reports_action(action: CubIpRelayAction)
    ensures
        relay_reading(decimal_chars(relay_parameters(action).0)) == Some(
            match action {
                CubIpRelayAction::RelayTurnOn | CubIpRelayAction::TimeRelayTurnOn(_) => "1"@,
                CubIpRelayAction::RelayTurnOff | CubIpRelayAction::TimeRelayTurnOff(_) => "0"@,
            },
        ),
{
    reveal_strlit("0");
    reveal_strlit("1");
    reveal_strlit("2");
    reveal_strlit("3");
    reveal_strlit("-");
    match action {
        CubIpRelayAction::RelayTurnOn => {
            assert(decimal_chars(1) =~= "1"@);
            assert("1"@ != "0"@ && "1"@ != "2"@) by {
                assert("1"@[0] != "0"@[0] && "1"@[0] != "2"@[0]);
            }
        },
        CubIpRelayAction::TimeRelayTurnOn(_) => {
            assert(decimal_chars(3) =~= "3"@);
            assert("3"@ != "0"@ && "3"@ != "2"@ && "3"@ != "1"@) by {
                assert("3"@[0] != "0"@[0] && "3"@[0] != "2"@[0] && "3"@[0] != "1"@[0]);
            }
        },
        CubIpRelayAction::RelayTurnOff => {
            assert(decimal_chars(0) =~= "0"@);
        },
        CubIpRelayAction::TimeRelayTurnOff(_) => {
            assert(decimal_chars(2) =~= "2"@);
        },
    }
}

proof fn lemma_status_words_differ()
    ensures
        "0"@ != "1"@,
        "0"@ != "2"@,
        "0"@ != "3"@,
        "0"@ != "-"@,
        "1"@ != "2"@,
        "1"@ != "3"@,
        "1"@ != "-"@,
        "2"@ != "3"@,
        "2"@ != "-"@,
        "3"@ != "-"@,
        "Сработка"@ != "Норма"@,
        "Сработка"@ != "-"@,
        "Норма"@ != "-"@,
        "Обрыв датчика"@ != "-"@,
{
    reveal_strlit("0");
    reveal_strlit("1");
    reveal_strlit("2");
    reveal_strlit("3");
    reveal_strlit("-");
    reveal_strlit("Сработка");
    reveal_strlit("Норма");
    reveal_strlit("Обрыв датчика");
    assert("0"@[0] != "1"@[0] && "0"@[0] != "2"@[0] && "0"@[0] != "3"@[0] && "0"@[0] != "-"@[0]);
    assert("1"@[0] != "2"@[0] && "1"@[0] != "3"@[0] && "1"@[0] != "-"@[0]);
    assert("2"@[0] != "3"@[0] && "2"@[0] != "-"@[0] && "3"@[0] != "-"@[0]);
    assert("Сработка"@[0] != "Норма"@[0]);
}

proof fn lemma_publication_for_contains(
    topic: Seq<char>,
    prev: Option<Seq<char>>,
    new: Option<Seq<char>>,
    qos: i32,
    x: (Seq<char>, Seq<char>, i32),
)
    ensures
        publication_for(topic, prev, new, qos).contains(x) <==> (new == Some(x.1) && prev != new
            && x.0 == topic && x.2 == qos),
{
    if let Some(v) = new {
        if prev != Some(v) {
            assert(seq![(topic, v, qos)][0] == (topic, v, qos));
        }
    }
}

/// What is published for new readings is exactly each reading that has a
/// published form and differs from the value last published on its topic, on
/// that topic: the temperature at most once (QoS 0), every other value at
/// least once (QoS 1).
pub proof fn lemma_publishes_exactly_changed_values(
    topics: StatusTopics,
    prev: Readings,
    new: Readings,
    x: (Seq<char>, Seq<char>, i32),
)
    ensures
        publications(topics, prev, new).contains(x) <==> {
            ||| (x.0 == topics.temperature && x.2 == 0i32 && new.temperature == Some(x.1)
                && prev.temperature != new.temperature)
            ||| (x.0 == topics.relay && x.2 == 1i32 && new.relay == Some(x.1) && prev.relay
                != new.relay)
            ||| (x.0 == topics.pin_1 && x.2 == 1i32 && new.pin_1 == Some(x.1) && prev.pin_1
                != new.pin_1)
            ||| (x.0 == topics.pin_2 && x.2 == 1i32 && new.pin_2 == Some(x.1) && prev.pin_2
                != new.pin_2)
            ||| (x.0 == topics.time_relay && x.2 == 1i32 && new.time_relay == Some(x.1)
                && prev.time_relay != new.time_relay)
            ||| (x.0 == topics.version && x.2 == 1i32 && new.version == Some(x.1) && prev.version
                != new.version)
        },
{
    broadcast use lemma_seq_concat_contains_all_elements;

    lemma_publication_for_contains(topics.temperature, prev.temperature, new.temperature, 0, x);
    lemma_publication_for_contains(topics.relay, prev.relay, new.relay, 1, x);
    lemma_publication_for_contains(topics.pin_1, prev.pin_1, new.pin_1, 1, x);
    lemma_publication_for_contains(topics.pin_2, prev.pin_2, new.pin_2, 1, x);
    lemma_publication_for_contains(topics.time_relay, prev.time_relay, new.time_relay, 1, x);
    lemma_publication_for_contains(topics.version, prev.version, new.version, 1, x);
}

/// The time relay value of a status document is published as it is written
/// there, whatever it holds, whenever it differs from the value last published
/// on its topic, and becomes the value last published.
pub proof fn lemma_time_relay_published_as_is(
    topics: StatusTopics,
    prev: Readings,
    d: CubIpResponse,
    version: Seq<char>,
)
    ensures
        readings_of(Ok(d), version).time_relay == Some(d.tmrel@),
        updated(prev, readings_of(Ok(d), version)).time_relay == Some(d.tmrel@),
        prev.time_relay != Some(d.tmrel@) ==> publications(
            topics,
            prev,
            readings_of(Ok(d), version),
        ).contains((topics.time_relay, d.tmrel@, 1i32)),
{
    lemma_publishes_exactly_changed_values(
        topics,
        prev,
        readings_of(Ok(d), version),
        (topics.time_relay, d.tmrel@, 1i32),
    );
}

/// The published forms of the values of a status document: the relay `0` for
/// `0` and `2`, `1` for `1` and `3`; a pin `0` for `Сработка`, `1` for `Норма`;
/// `-` kept; the temperature `-` for a broken sensor, else its text without the
/// last three bytes; no published form for anything else; the version shown.
pub proof fn lemma_status_readings(d: CubIpResponse, version: Seq<char>)
    requires
        temperature_decodable(d.trm@),
    ensures
        readings_of(Ok(d), version).version == Some(version),
        d.strel@ == "0"@ || d.strel@ == "2"@ ==> readings_of(Ok(d), version).relay == Some("0"@),
        d.strel@ == "1"@ || d.strel@ == "3"@ ==> readings_of(Ok(d), version).relay == Some("1"@),
        d.strel@ == "-"@ ==> readings_of(Ok(d), version).relay == Some("-"@),
        d.strel@ != "0"@ && d.strel@ != "1"@ && d.strel@ != "2"@ && d.strel@ != "3"@ && d.strel@
            != "-"@ ==> readings_of(Ok(d), version).relay is None,
        d.vle0@ == "Сработка"@ ==> readings_of(Ok(d), version).pin_1 == Some("0"@),
        d.vle0@ == "Норма"@ ==> readings_of(Ok(d), version).pin_1 == Some("1"@),
        d.vle0@ == "-"@ ==> readings_of(Ok(d), version).pin_1 == Some("-"@),
        d.vle0@ != "Сработка"@ && d.vle0@ != "Норма"@ && d.vle0@ != "-"@ ==> readings_of(
            Ok(d),
            version,
        ).pin_1 is None,
        d.vle1@ == "Сработка"@ ==> readings_of(Ok(d), version).pin_2 == Some("0"@),
        d.vle1@ == "Норма"@ ==> readings_of(Ok(d), version).pin_2 == Some("1"@),
        d.vle1@ == "-"@ ==> readings_of(Ok(d), version).pin_2 == Some("-"@),
        d.vle1@ != "Сработка"@ && d.vle1@ != "Норма"@ && d.vle1@ != "-"@ ==> readings_of(
            Ok(d),
            version,
        ).pin_2 is None,
        d.trm@ == "Обрыв датчика"@ || d.trm@ == "-"@ ==> readings_of(Ok(d), version).temperature
            == Some("-"@),
        d.trm@ != "Обрыв датчика"@ && d.trm@ != "-"@ && encode_utf8(d.trm@).len() > 2
            ==> (readings_of(Ok(d), version).temperature matches Some(t) && encode_utf8(t)
            == encode_utf8(d.trm@).take(encode_utf8(d.trm@).len() - 3)),
        d.trm@ != "Обрыв датчика"@ && d.trm@ != "-"@ && encode_utf8(d.trm@).len() <= 2
            ==> readings_of(Ok(d), version).temperature is None,
{
    lemma_status_words_differ();
    let b = encode_utf8(d.trm@);
    if d.trm@ != "Обрыв датчика"@ && d.trm@ != "-"@ && b.len() > 2 {
        let n = b.len() - 3;
        encode_utf8_valid_utf8(d.trm@);
        valid_utf8_split(b, n);
        assert(b.take(n) =~= b.subrange(0, n));
        decode_utf8_encode_utf8(b.take(n));
    }
}

} // verus!
