use vstd::prelude::*;


verus! {

/// How much the bridge logs.
#[derive(Debug, Clone, Copy, PartialEq, Eq, Structural)]
pub enum LogLevel {
    Off,
    Error,
    Warn,
    Info,
    Debug,
    Trace,
}

/// A span of time: whole seconds and the nanoseconds beyond them.
#[derive(Debug, Clone, Copy, PartialEq, Eq, Structural)]
pub struct Timeout {
    pub secs: u64,
    pub nanos: u32,
}

/// The four timeouts of the configuration.
#[derive(Debug, Clone, Copy, PartialEq, Eq, Structural)]
pub enum DurationField {
    ConnectionTimeout,
    ReadTimeout,
    WriteTimeout,
    RequestTimeout,
}

/// Why a configuration was refused.
#[derive(Debug, Clone, PartialEq, Eq)]
pub enum ConfigError {
    /// The text of the given timeout is no duration; the message says why.
    InvalidDuration(DurationField, String),
    /// The log level names no level; it holds the text.
    UnknownLevelFilter(String),
}

/// The `main` section of the configuration file, every value as it is written there.
#[derive(Debug, Clone, PartialEq, Eq)]
pub struct ConfigFile {
    pub cub_ip_address: String,
    pub cub_ip_login: String,
    pub cub_ip_password: String,
    pub cub_ip_connection_timeout: String,
    pub cub_ip_read_timeout: String,
    pub cub_ip_write_timeout: String,
    pub cub_ip_request_timeout: String,
    pub mqtt_main_topic: String,
    pub mqtt_host: String,
    pub mqtt_name_client: String,
    pub log_level: String,
}

/// The settings of the bridge.
#[derive(Debug, Clone, PartialEq, Eq)]
pub struct Config {
    pub cub_ip_address: String,
    pub cub_ip_login: String,
    pub cub_ip_password: String,
    pub cub_ip_connection_timeout: Timeout,
    pub cub_ip_read_timeout: Timeout,
    pub cub_ip_write_timeout: Timeout,
    pub cub_ip_request_timeout: Timeout,
    pub mqtt_main_topic: String,
    pub mqtt_host: String,
    pub mqtt_name_client: String,
    pub log_level: LogLevel,
}

// ---------------------------------------------------------------------------
// Log level
// ---------------------------------------------------------------------------

/// The text that `str::to_lowercase` makes of `s`.
pub uninterp spec fn lowercase_of(s: Seq<char>) -> Seq<char>;

/// Lower-cases `s` with `str::to_lowercase`.
///
/// The contract claims that the result is a function of the text alone, named
/// `lowercase_of`; it does not state Unicode's lower-case mapping.
#[verifier::external_body]
fn to_lowercase(s: &str) -> (r: String)
    ensures
        r@ == lowercase_of(s@),
{
    s.to_lowercase()
}

/// The level that a lower-case word names: `off`, `error`, `warn`, `info`,
/// `debug` or `trace`.
pub open spec fn level_of_word(w: Seq<char>) -> Option<LogLevel> {
    if w == "off"@ {
        Some(LogLevel::Off)
    } else if w == "error"@ {
        Some(LogLevel::Error)
    } else if w == "warn"@ {
        Some(LogLevel::Warn)
    } else if w == "info"@ {
        Some(LogLevel::Info)
    } else if w == "debug"@ {
        Some(LogLevel::Debug)
    } else if w == "trace"@ {
        Some(LogLevel::Trace)
    } else {
        None
    }
}

/// The level that `s` names, ignoring case: the level of its lower-case form.
pub open spec fn log_level_named(s: Seq<char>) -> Option<LogLevel> {
    level_of_word(lowercase_of(s))
}

/// Two texts with the same lower-case form name the same level, or both none.
pub proof fn lemma_log_level_ignores_case(s: Seq<char>, t: Seq<char>)
    requires
        lowercase_of(s) == lowercase_of(t),
    ensures
        log_level_named(s) == log_level_named(t),
{
}

/// Each of the six words `off`, `error`, `warn`, `info`, `debug`, `trace`
/// names its own level, and no other lower-case word names one.
pub proof fn lemma_level_words(w: Seq<char>)
    ensures
        level_of_word("off"@) == Some(LogLevel::Off),
        level_of_word("error"@) == Some(LogLevel::Error),
        level_of_word("warn"@) == Some(LogLevel::Warn),
        level_of_word("info"@) == Some(LogLevel::Info),
        level_of_word("debug"@) == Some(LogLevel::Debug),
        level_of_word("trace"@) == Some(LogLevel::Trace),
        level_of_word(w) is Some ==> w == "off"@ || w == "error"@ || w == "warn"@ || w
            == "info"@ || w == "debug"@ || w == "trace"@,
{
    reveal_strlit("off");
    reveal_strlit("error");
    reveal_strlit("warn");
    reveal_strlit("info");
    reveal_strlit("debug");
    reveal_strlit("trace");
    assert("off"@[0] == 'o' && "error"@[0] == 'e' && "warn"@[0] == 'w');
    assert("info"@[0] == 'i' && "debug"@[0] == 'd' && "trace"@[0] == 't');
}

/// The level that a lower-case word names.
pub fn level_of_lowercase(w: &str) -> (r: Option<LogLevel>)
    ensures
        r == level_of_word(w@),
{
    let w = w.to_owned();
    if w == String::from_str("off") {
        Some(LogLevel::Off)
    } else if w == String::from_str("error") {
        Some(LogLevel::Error)
    } else if w == String::from_str("warn") {
        Some(LogLevel::Warn)
    } else if w == String::from_str("info") {
        Some(LogLevel::Info)
    } else if w == String::from_str("debug") {
        Some(LogLevel::Debug)
    } else if w == String::from_str("trace") {
        Some(LogLevel::Trace)
    } else {
        None
    }
}

/// Reads a log level, ignoring case.
pub fn parse_log_level(s: &str) -> (r: Result<LogLevel, ConfigError>)
    ensures
        match r {
            Ok(level) => log_level_named(s@) == Some(level),
            Err(e) => {
                &&& log_level_named(s@) is None
                &&& e matches ConfigError::UnknownLevelFilter(t)
                &&& t@ == s@
            },
        },
{
    let lower = to_lowercase(s);
    match level_of_lowercase(lower.as_str()) {
        Some(level) => Ok(level),
        None => Err(ConfigError::UnknownLevelFilter(s.to_owned())),
    }
}

// ---------------------------------------------------------------------------
// Durations
// ---------------------------------------------------------------------------

/// The duration, as whole seconds and the nanoseconds beyond them, that
/// `parse_duration::parse` reads from `text`, or `None` where it refuses it.
pub uninterp spec fn parsed_duration(text: Seq<char>) -> Option<(u64, u32)>;

/// Reads a duration with `parse_duration::parse`.
///
/// The contract claims that the result is a function of the text alone, named
/// `parsed_duration`, and that the nanoseconds of a duration are below one
/// billion, as `Duration::subsec_nanos` documents. On the error it states only
/// that there is one; its message is the error's display text. It does not state
/// the crate's grammar. The crate's source shows that a huge exponent (such as
/// `1e99999999999s`) makes it compute a power of ten of that size, which can
/// exhaust memory; no `requires` leaves those texts out.
#[verifier::external_body]
fn parse_duration_text(text: &str) -> (r: Result<Timeout, String>)
    ensures
        r is Ok <==> parsed_duration(text@) is Some,
        r matches Ok(t) ==> parsed_duration(text@) == Some((t.secs, t.nanos)) && t.nanos
            < 1_000_000_000,
{
    match parse_duration::parse(text) {
        Ok(d) => Ok(Timeout { secs: d.as_secs(), nanos: d.subsec_nanos() }),
        Err(e) => Err(e.to_string()),
    }
}

/// The timeout that a duration read from a configuration value gives.
pub open spec fn timeout_from(parsed: Option<(u64, u32)>) -> Option<Timeout> {
    match parsed {
        Some((secs, nanos)) => Some(Timeout { secs, nanos }),
        None => None,
    }
}

/// Turns what was read for the timeout `field` into the timeout or the error
/// that names the field.
pub fn timeout_or_error(field: DurationField, parsed: Result<Timeout, String>) -> (r: Result<
    Timeout,
    ConfigError,
>)
    ensures
        match parsed {
            Ok(t) => r == Ok::<Timeout, ConfigError>(t),
            Err(m) => r == Err::<Timeout, ConfigError>(ConfigError::InvalidDuration(field, m)),
        },
{
    match parsed {
        Ok(t) => Ok(t),
        Err(m) => Err(ConfigError::InvalidDuration(field, m)),
    }
}

// ---------------------------------------------------------------------------
// The configuration
// ---------------------------------------------------------------------------

/// The configuration that the file gives, where its timeouts read as `connection`,
/// `read`, `write` and `request` and its log level as `level`.
pub open spec fn config_from(
    file: ConfigFile,
    connection: Timeout,
    read: Timeout,
    write: Timeout,
    request: Timeout,
    level: LogLevel,
) -> Config {
    Config {
        cub_ip_address: file.cub_ip_address,
        cub_ip_login: file.cub_ip_login,
        cub_ip_password: file.cub_ip_password,
        cub_ip_connection_timeout: connection,
        cub_ip_read_timeout: read,
        cub_ip_write_timeout: write,
        cub_ip_request_timeout: request,
        mqtt_main_topic: file.mqtt_main_topic,
        mqtt_host: file.mqtt_host,
        mqtt_name_client: file.mqtt_name_client,
        log_level: level,
    }
}

/// The configuration is refused for the first value, in the order of the
/// fields, that does not read.
pub open spec fn config_result(
    file: ConfigFile,
    connection: Result<Timeout, String>,
    read: Result<Timeout, String>,
    write: Result<Timeout, String>,
    request: Result<Timeout, String>,
) -> Result<Config, ConfigError> {
    match (connection, read, write, request, log_level_named(file.log_level@)) {
        (Err(m), _, _, _, _) => Err(ConfigError::InvalidDuration(DurationField::ConnectionTimeout, m)),
        (Ok(_), Err(m), _, _, _) => Err(ConfigError::InvalidDuration(DurationField::ReadTimeout, m)),
        (Ok(_), Ok(_), Err(m), _, _) => Err(
            ConfigError::InvalidDuration(DurationField::WriteTimeout, m),
        ),
        (Ok(_), Ok(_), Ok(_), Err(m), _) => Err(
            ConfigError::InvalidDuration(DurationField::RequestTimeout, m),
        ),
        (Ok(_), Ok(_), Ok(_), Ok(_), None) => Err(
            ConfigError::UnknownLevelFilter(file.log_level),
        ),
        (Ok(c), Ok(r), Ok(w), Ok(q), Some(level)) => Ok(config_from(file, c, r, w, q, level)),
    }
}

/// A configuration reads exactly when its four timeouts and its log level do;
/// it then holds each timeout as it was read for its own field, the level that
/// its text names, and the file's other values unchanged.
pub proof fn lemma_config_keeps_each_value(
    file: ConfigFile,
    connection: Result<Timeout, String>,
    read: Result<Timeout, String>,
    write: Result<Timeout, String>,
    request: Result<Timeout, String>,
)
    ensures
        config_result(file, connection, read, write, request) is Ok <==> (connection is Ok
            && read is Ok && write is Ok && request is Ok && log_level_named(file.log_level@) is Some),
        config_result(file, connection, read, write, request) matches Ok(c) ==> {
            &&& connection == Ok::<Timeout, String>(c.cub_ip_connection_timeout)
            &&& read == Ok::<Timeout, String>(c.cub_ip_read_timeout)
            &&& write == Ok::<Timeout, String>(c.cub_ip_write_timeout)
            &&& request == Ok::<Timeout, String>(c.cub_ip_request_timeout)
            &&& log_level_named(file.log_level@) == Some(c.log_level)
            &&& c.cub_ip_address == file.cub_ip_address
            &&& c.cub_ip_login == file.cub_ip_login
            &&& c.cub_ip_password == file.cub_ip_password
            &&& c.mqtt_main_topic == file.mqtt_main_topic
            &&& c.mqtt_host == file.mqtt_host
            &&& c.mqtt_name_client == file.mqtt_name_client
        },
{
}

impl Config {
    /// Builds the configuration from the file's values and what was read from
    /// its four timeouts.
    pub fn from_parsed(
        file: ConfigFile,
        connection: Result<Timeout, String>,
        read: Result<Timeout, String>,
        write: Result<Timeout, String>,
        request: Result<Timeout, String>,
    ) -> (r: Result<Config, ConfigError>)
        ensures
            r == config_result(file, connection, read, write, request),
    {
        let connection = match timeout_or_error(DurationField::ConnectionTimeout, connection) {
            Ok(t) => t,
            Err(e) => return Err(e),
        };
        let read = match timeout_or_error(DurationField::ReadTimeout, read) {
            Ok(t) => t,
            Err(e) => return Err(e),
        };
        let write = match timeout_or_error(DurationField::WriteTimeout, write) {
            Ok(t) => t,
            Err(e) => return Err(e),
        };
        let request = match timeout_or_error(DurationField::RequestTimeout, request) {
            Ok(t) => t,
            Err(e) => return Err(e),
        };
        let log_level = match parse_log_level(file.log_level.as_str()) {
            Ok(level) => level,
            Err(_) => return Err(ConfigError::UnknownLevelFilter(file.log_level)),
        };
        Ok(
            Config {
                cub_ip_address: file.cub_ip_address,
                cub_ip_login: file.cub_ip_login,
                cub_ip_password: file.cub_ip_password,
                cub_ip_connection_timeout: connection,
                cub_ip_read_timeout: read,
                cub_ip_write_timeout: write,
                cub_ip_request_timeout: request,
                mqtt_main_topic: file.mqtt_main_topic,
                mqtt_host: file.mqtt_host,
                mqtt_name_client: file.mqtt_name_client,
                log_level,
            },
        )
    }

    /// Reads the configuration from the values of the `main` section of its
    /// file: the four timeouts are durations such as `10s` or `1m 30s`, the log
    /// level is one of `off`, `error`, `warn`, `info`, `debug`, `trace` in any case.
    ///
    /// It is `Ok` exactly when every timeout reads as a duration and the log
    /// level names a level; otherwise the error names the first value, in the
    /// order of the fields, that does not.
    pub fn read_from_file(file: ConfigFile) -> (r: Result<Config, ConfigError>)
        ensures
            match r {
                Ok(c) => {
                    &&& timeout_from(parsed_duration(file.cub_ip_connection_timeout@)) == Some(
                        c.cub_ip_connection_timeout,
                    )
                    &&& timeout_from(parsed_duration(file.cub_ip_read_timeout@)) == Some(
                        c.cub_ip_read_timeout,
                    )
                    &&& timeout_from(parsed_duration(file.cub_ip_write_timeout@)) == Some(
                        c.cub_ip_write_timeout,
                    )
                    &&& timeout_from(parsed_duration(file.cub_ip_request_timeout@)) == Some(
                        c.cub_ip_request_timeout,
                    )
                    &&& log_level_named(file.log_level@) == Some(c.log_level)
                    &&& c.cub_ip_address == file.cub_ip_address
                    &&& c.cub_ip_login == file.cub_ip_login
                    &&& c.cub_ip_password == file.cub_ip_password
                    &&& c.mqtt_main_topic == file.mqtt_main_topic
                    &&& c.mqtt_host == file.mqtt_host
                    &&& c.mqtt_name_client == file.mqtt_name_client
                },
                Err(ConfigError::InvalidDuration(DurationField::ConnectionTimeout, _)) => {
                    parsed_duration(file.cub_ip_connection_timeout@) is None
                },
                Err(ConfigError::InvalidDuration(DurationField::ReadTimeout, _)) => {
                    &&& parsed_duration(file.cub_ip_connection_timeout@) is Some
                    &&& parsed_duration(file.cub_ip_read_timeout@) is None
                },
                Err(ConfigError::InvalidDuration(DurationField::WriteTimeout, _)) => {
                    &&& parsed_duration(file.cub_ip_connection_timeout@) is Some
                    &&& parsed_duration(file.cub_ip_read_timeout@) is Some
                    &&& parsed_duration(file.cub_ip_write_timeout@) is None
                },
                Err(ConfigError::InvalidDuration(DurationField::RequestTimeout, _)) => {
                    &&& parsed_duration(file.cub_ip_connection_timeout@) is Some
                    &&& parsed_duration(file.cub_ip_read_timeout@) is Some
                    &&& parsed_duration(file.cub_ip_write_timeout@) is Some
                    &&& parsed_duration(file.cub_ip_request_timeout@) is None
                },
                Err(ConfigError::UnknownLevelFilter(t)) => {
                    &&& parsed_duration(file.cub_ip_connection_timeout@) is Some
                    &&& parsed_duration(file.cub_ip_read_timeout@) is Some
                    &&& parsed_duration(file.cub_ip_write_timeout@) is Some
                    &&& parsed_duration(file.cub_ip_request_timeout@) is Some
                    &&& log_level_named(file.log_level@) is None
                    &&& t == file.log_level
                },
            },
    {
        let connection = parse_duration_text(file.cub_ip_connection_timeout.as_str());
        let read = parse_duration_text(file.cub_ip_read_timeout.as_str());
        let write = parse_duration_text(file.cub_ip_write_timeout.as_str());
        let request = parse_duration_text(file.cub_ip_request_timeout.as_str());
        Config::from_parsed(file, connection, read, write, request)
    }
}

} // verus!
