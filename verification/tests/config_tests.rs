use cub_ip_app::config::{
    level_of_lowercase, parse_log_level, timeout_or_error, Config, ConfigError, ConfigFile, DurationField, LogLevel,
    Timeout,
};

fn file() -> ConfigFile {
    ConfigFile {
        cub_ip_address: "192.168.0.10:80".to_string(),
        cub_ip_login: "admin".to_string(),
        cub_ip_password: "secret".to_string(),
        cub_ip_connection_timeout: "5s".to_string(),
        cub_ip_read_timeout: "1m 30s".to_string(),
        cub_ip_write_timeout: "250ms".to_string(),
        cub_ip_request_timeout: "2".to_string(),
        mqtt_main_topic: "home".to_string(),
        mqtt_host: "127.0.0.1:1883".to_string(),
        mqtt_name_client: "cub".to_string(),
        log_level: "Info".to_string(),
    }
}

#[test]
fn read_from_file_reads_every_value() {
    let config = Config::read_from_file(file()).unwrap();
    assert_eq!(config.cub_ip_address, "192.168.0.10:80");
    assert_eq!(config.cub_ip_login, "admin");
    assert_eq!(config.cub_ip_password, "secret");
    assert_eq!(config.cub_ip_connection_timeout, Timeout { secs: 5, nanos: 0 });
    assert_eq!(config.cub_ip_read_timeout, Timeout { secs: 90, nanos: 0 });
    assert_eq!(config.cub_ip_write_timeout, Timeout { secs: 0, nanos: 250_000_000 });
    assert_eq!(config.cub_ip_request_timeout, Timeout { secs: 2, nanos: 0 });
    assert_eq!(config.mqtt_main_topic, "home");
    assert_eq!(config.mqtt_host, "127.0.0.1:1883");
    assert_eq!(config.mqtt_name_client, "cub");
    assert_eq!(config.log_level, LogLevel::Info);
}

#[test]
fn read_from_file_refuses_a_bad_duration() {
    let mut f = file();
    f.cub_ip_write_timeout = "soon".to_string();
    match Config::read_from_file(f) {
        Err(ConfigError::InvalidDuration(DurationField::WriteTimeout, _)) => {}
        other => panic!("unexpected {:?}", other),
    }
}

#[test]
fn read_from_file_reports_the_first_bad_duration() {
    let mut f = file();
    f.cub_ip_read_timeout = "x".to_string();
    f.cub_ip_request_timeout = "y".to_string();
    f.log_level = "loud".to_string();
    match Config::read_from_file(f) {
        Err(ConfigError::InvalidDuration(DurationField::ReadTimeout, _)) => {}
        other => panic!("unexpected {:?}", other),
    }
}

#[test]
fn read_from_file_refuses_an_unknown_level() {
    let mut f = file();
    f.log_level = "verbose".to_string();
    assert_eq!(
        Config::read_from_file(f),
        Err(ConfigError::UnknownLevelFilter("verbose".to_string()))
    );
}

#[test]
fn log_levels_ignore_case() {
    assert_eq!(parse_log_level("off"), Ok(LogLevel::Off));
    assert_eq!(parse_log_level("ERROR"), Ok(LogLevel::Error));
    assert_eq!(parse_log_level("Warn"), Ok(LogLevel::Warn));
    assert_eq!(parse_log_level("iNfO"), Ok(LogLevel::Info));
    assert_eq!(parse_log_level("debug"), Ok(LogLevel::Debug));
    assert_eq!(parse_log_level("TRACE"), Ok(LogLevel::Trace));
}

#[test]
fn log_level_refuses_other_words() {
    assert_eq!(
        parse_log_level("warning"),
        Err(ConfigError::UnknownLevelFilter("warning".to_string()))
    );
    assert_eq!(parse_log_level(""), Err(ConfigError::UnknownLevelFilter("".to_string())));
    assert_eq!(
        parse_log_level(" info"),
        Err(ConfigError::UnknownLevelFilter(" info".to_string()))
    );
}

#[test]
fn timeout_or_error_names_the_field() {
    assert_eq!(
        timeout_or_error(DurationField::RequestTimeout, Ok(Timeout { secs: 3, nanos: 7 })),
        Ok(Timeout { secs: 3, nanos: 7 })
    );
    assert_eq!(
        timeout_or_error(DurationField::ConnectionTimeout, Err("bad".to_string())),
        Err(ConfigError::InvalidDuration(
            DurationField::ConnectionTimeout,
            "bad".to_string()
        ))
    );
}

#[test]
fn from_parsed_builds_the_config() {
    let c = Config::from_parsed(
        file(),
        Ok(Timeout { secs: 1, nanos: 0 }),
        Ok(Timeout { secs: 2, nanos: 0 }),
        Ok(Timeout { secs: 3, nanos: 0 }),
        Ok(Timeout { secs: 4, nanos: 5 }),
    )
    .unwrap();
    assert_eq!(c.cub_ip_request_timeout, Timeout { secs: 4, nanos: 5 });
    assert_eq!(c.log_level, LogLevel::Info);
}

#[test]
fn level_words_are_lower_case() {
    assert_eq!(level_of_lowercase("trace"), Some(LogLevel::Trace));
    assert_eq!(level_of_lowercase("Trace"), None);
    assert_eq!(parse_log_level("\u{130}NFO"), Err(ConfigError::UnknownLevelFilter("\u{130}NFO".to_string())));
}
