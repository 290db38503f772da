use cub_ip_app::publisher::is_temperature_decodable;
use cub_ip_app::common::{CubIpResponse, StatusError, Task};
use cub_ip_app::mqtt_client::Topics;
use cub_ip_app::publisher::{
    decode_value_pin_state, decode_value_relay_state, decode_value_temperature_sensor,
    DecodeError, Publication, StatusPublisher, QOS_0, QOS_1,
};

fn response(trm: &str, strel: &str, vle0: &str, vle1: &str, tmrel: &str) -> CubIpResponse {
    CubIpResponse {
        tm: "12:00".to_string(),
        stv: "1".to_string(),
        trm: trm.to_string(),
        hih: "0".to_string(),
        vle0: vle0.to_string(),
        vle1: vle1.to_string(),
        vle2: "0".to_string(),
        vle3: "0".to_string(),
        vle4: "0".to_string(),
        vle5: "0".to_string(),
        strel: strel.to_string(),
        tmrel: tmrel.to_string(),
    }
}

fn publication(topic: &str, payload: &str, qos: i32) -> Publication {
    Publication { topic: topic.to_string(), payload: payload.to_string(), qos }
}

#[test]
fn temperature_values() {
    assert_eq!(decode_value_temperature_sensor("23.5°C"), Ok("23.5".to_string()));
    assert_eq!(decode_value_temperature_sensor("-4 °C"), Ok("-4 ".to_string()));
    assert_eq!(decode_value_temperature_sensor("abc"), Ok("".to_string()));
    assert_eq!(decode_value_temperature_sensor("Обрыв датчика"), Ok("-".to_string()));
    assert_eq!(decode_value_temperature_sensor("-"), Ok("-".to_string()));
    assert_eq!(
        decode_value_temperature_sensor("12"),
        Err(DecodeError::UnknownTemperature("12".to_string()))
    );
    assert_eq!(
        decode_value_temperature_sensor(""),
        Err(DecodeError::UnknownTemperature("".to_string()))
    );
}

#[test]
fn relay_values() {
    assert_eq!(decode_value_relay_state("0"), Ok("0".to_string()));
    assert_eq!(decode_value_relay_state("2"), Ok("0".to_string()));
    assert_eq!(decode_value_relay_state("1"), Ok("1".to_string()));
    assert_eq!(decode_value_relay_state("3"), Ok("1".to_string()));
    assert_eq!(decode_value_relay_state("-"), Ok("-".to_string()));
    assert_eq!(
        decode_value_relay_state("4"),
        Err(DecodeError::UnknownRelay("4".to_string()))
    );
}

#[test]
fn pin_values() {
    assert_eq!(decode_value_pin_state("Сработка"), Ok("0".to_string()));
    assert_eq!(decode_value_pin_state("Норма"), Ok("1".to_string()));
    assert_eq!(decode_value_pin_state("-"), Ok("-".to_string()));
    assert_eq!(
        decode_value_pin_state("норма"),
        Err(DecodeError::UnknownPin("норма".to_string()))
    );
}

#[test]
fn first_status_publishes_every_value() {
    let topics = Topics::new("home");
    let mut p = StatusPublisher::new(&topics, "0.1.0");
    let out = p.handle(Task::Response(Box::new(Ok(response(
        "21.0°C", "3", "Норма", "Сработка", "15",
    )))));
    assert_eq!(
        out,
        vec![
            publication("/home/temperature", "21.0", QOS_0),
            publication("/home/relay/state", "1", QOS_1),
            publication("/home/pin_1/state", "1", QOS_1),
            publication("/home/pin_2/state", "0", QOS_1),
            publication("/home/time_relay/state", "15", QOS_1),
        ]
    );
    assert_eq!(p.prev_temperature_value, Some("21.0".to_string()));
    assert_eq!(p.prev_time_relay_value, Some("15".to_string()));
}

#[test]
fn same_status_publishes_nothing() {
    let topics = Topics::new("home");
    let mut p = StatusPublisher::new(&topics, "0.1.0");
    let r = response("21.0°C", "0", "Норма", "Норма", "0");
    p.handle(Task::Response(Box::new(Ok(r.clone()))));
    let out = p.handle(Task::Response(Box::new(Ok(r))));
    assert!(out.is_empty());
}

#[test]
fn only_changed_values_are_published() {
    let topics = Topics::new("home");
    let mut p = StatusPublisher::new(&topics, "0.1.0");
    p.handle(Task::Response(Box::new(Ok(response("21.0°C", "0", "Норма", "Норма", "0")))));
    // relay "2" also reads as off: no change
    let out = p.handle(Task::Response(Box::new(Ok(response(
        "22.0°C", "2", "Норма", "Норма", "0",
    )))));
    assert_eq!(out, vec![publication("/home/temperature", "22.0", QOS_0)]);
}

#[test]
fn unknown_values_keep_the_previous_value() {
    let topics = Topics::new("home");
    let mut p = StatusPublisher::new(&topics, "0.1.0");
    p.handle(Task::Response(Box::new(Ok(response("21.0°C", "1", "Норма", "Норма", "0")))));
    let out = p.handle(Task::Response(Box::new(Ok(response(
        "21.0°C", "9", "???", "Норма", "0",
    )))));
    assert!(out.is_empty());
    assert_eq!(p.prev_relay_value, Some("1".to_string()));
    assert_eq!(p.prev_pin_1_value, Some("1".to_string()));
}

#[test]
fn failed_response_publishes_dashes() {
    let topics = Topics::new("home");
    let mut p = StatusPublisher::new(&topics, "0.1.0");
    p.handle(Task::Response(Box::new(Ok(response("21.0°C", "1", "Норма", "Норма", "0")))));
    let out = p.handle(Task::Response(Box::new(Err(StatusError::ResponseFailed))));
    assert_eq!(
        out,
        vec![
            publication("/home/temperature", "-", QOS_0),
            publication("/home/relay/state", "-", QOS_1),
            publication("/home/pin_1/state", "-", QOS_1),
            publication("/home/pin_2/state", "-", QOS_1),
            publication("/home/time_relay/state", "-", QOS_1),
        ]
    );
}

#[test]
fn reset_publishes_again_except_time_relay() {
    let topics = Topics::new("home");
    let mut p = StatusPublisher::new(&topics, "0.1.0");
    let r = response("21.0°C", "1", "Норма", "Норма", "0");
    p.handle(Task::Response(Box::new(Ok(r.clone()))));
    assert!(p.handle(Task::ResetPrevValue).is_empty());
    let out = p.handle(Task::Response(Box::new(Ok(r))));
    assert_eq!(
        out,
        vec![
            publication("/home/temperature", "21.0", QOS_0),
            publication("/home/relay/state", "1", QOS_1),
            publication("/home/pin_1/state", "1", QOS_1),
            publication("/home/pin_2/state", "1", QOS_1),
        ]
    );
}

#[test]
fn request_errors_publish_dashes_too() {
    let topics = Topics::new("home");
    let mut p = StatusPublisher::new(&topics, "0.1.0");
    let out = p.handle(Task::Response(Box::new(Err(StatusError::Request(
        "connection timeout expired.".to_string(),
    )))));
    assert_eq!(out.len(), 6);
    assert!(out.iter().all(|m| m.payload == "-"));
    assert_eq!(out[5], publication("/home/version", "-", QOS_1));
    let again = p.handle(Task::Response(Box::new(Err(StatusError::Parse("bad".to_string())))));
    assert_eq!(again, vec![publication("/home/version", "0.1.0", QOS_1)]);
}

#[test]
fn version_topic_shows_reachability() {
    let topics = Topics::new("home");
    let mut p = StatusPublisher::new(&topics, "1.2.3");
    let r = response("21.0°C", "1", "Норма", "Норма", "0");
    let first = p.handle(Task::Response(Box::new(Ok(r.clone()))));
    assert!(first.iter().all(|m| m.topic != "/home/version"));
    let down = p.handle(Task::Response(Box::new(Err(StatusError::Request("x".to_string())))));
    assert!(down.contains(&publication("/home/version", "-", QOS_1)));
    let still_down =
        p.handle(Task::Response(Box::new(Err(StatusError::Request("x".to_string())))));
    assert!(still_down.is_empty());
    let up = p.handle(Task::Response(Box::new(Ok(r))));
    assert_eq!(up.last(), Some(&publication("/home/version", "1.2.3", QOS_1)));
    assert_eq!(p.prev_version_value, Some("1.2.3".to_string()));
    p.handle(Task::Response(Box::new(Err(StatusError::Request("x".to_string())))));
    p.handle(Task::ResetPrevValue);
    assert_eq!(p.prev_version_value, Some("1.2.3".to_string()));
}

#[test]
fn temperature_decodable_check() {
    assert!(is_temperature_decodable("23.5°C"));
    assert!(is_temperature_decodable("Обрыв датчика"));
    assert!(is_temperature_decodable("12"));
    assert!(!is_temperature_decodable("Норма"));
}
