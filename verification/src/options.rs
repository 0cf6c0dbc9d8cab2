//! Runtime options and the session-facing message types.

use vstd::prelude::*;

verus! {

/// The log verbosity, in increasing order of detail.
#[derive(Clone, Copy, PartialEq, Eq, Debug, Structural)]
pub enum LogLevel {
    Off,
    Error,
    Warn,
    Info,
    Debug,
    Trace,
}

impl Default for LogLevel {
    fn default() -> (r: Self)
        ensures
            r == LogLevel::Info,
    {
        LogLevel::Info
    }
}

/// A rejected log-level name.
#[derive(Clone, PartialEq, Eq, Debug)]
pub struct LogLevelError {
    pub given_log_level: String,
}

impl LogLevel {
    /// The level named by a lower-case word; anything else is rejected
    /// and echoed back.
    pub fn parse(s: &str) -> (r: Result<LogLevel, LogLevelError>)
        ensures
            s@ == "off"@ ==> r == Ok::<LogLevel, LogLevelError>(LogLevel::Off),
            s@ == "error"@ ==> r == Ok::<LogLevel, LogLevelError>(LogLevel::Error),
            s@ == "warn"@ ==> r == Ok::<LogLevel, LogLevelError>(LogLevel::Warn),
            s@ == "info"@ ==> r == Ok::<LogLevel, LogLevelError>(LogLevel::Info),
            s@ == "debug"@ ==> r == Ok::<LogLevel, LogLevelError>(LogLevel::Debug),
            s@ == "trace"@ ==> r == Ok::<LogLevel, LogLevelError>(LogLevel::Trace),
            (s@ != "off"@ && s@ != "error"@ && s@ != "warn"@ && s@ != "info"@ && s@ != "debug"@
                && s@ != "trace"@) ==> (r matches Err(e) && e.given_log_level@ == s@),
    {
        proof {
            lemma_level_names_distinct();
        }
        let c = s.to_owned();
        if c.eq(&String::from_str("off")) {
            Ok(LogLevel::Off)
        } else if c.eq(&String::from_str("error")) {
            Ok(LogLevel::Error)
        } else if c.eq(&String::from_str("warn")) {
            Ok(LogLevel::Warn)
        } else if c.eq(&String::from_str("info")) {
            Ok(LogLevel::Info)
        } else if c.eq(&String::from_str("debug")) {
            Ok(LogLevel::Debug)
        } else if c.eq(&String::from_str("trace")) {
            Ok(LogLevel::Trace)
        } else {
            Err(LogLevelError { given_log_level: s.to_owned() })
        }
    }

    /// The upper-case name, as the configuration surface spells it.
    pub fn name(&self) -> (r: &'static str)
        ensures
            self is Off ==> r@ == "OFF"@,
            self is Error ==> r@ == "ERROR"@,
            self is Warn ==> r@ == "WARN"@,
            self is Info ==> r@ == "INFO"@,
            self is Debug ==> r@ == "DEBUG"@,
            self is Trace ==> r@ == "TRACE"@,
    {
        match self {
            LogLevel::Off => "OFF",
            LogLevel::Error => "ERROR",
            LogLevel::Warn => "WARN",
            LogLevel::Info => "INFO",
            LogLevel::Debug => "DEBUG",
            LogLevel::Trace => "TRACE",
        }
    }
}

/// The six accepted level names differ pairwise.
proof fn lemma_level_names_distinct()
    ensures
        "off"@ != "error"@,
        "off"@ != "warn"@,
        "off"@ != "info"@,
        "off"@ != "debug"@,
        "off"@ != "trace"@,
        "error"@ != "warn"@,
        "error"@ != "info"@,
        "error"@ != "debug"@,
        "error"@ != "trace"@,
        "warn"@ != "info"@,
        "warn"@ != "debug"@,
        "warn"@ != "trace"@,
        "info"@ != "debug"@,
        "info"@ != "trace"@,
        "debug"@ != "trace"@,
{
    reveal_strlit("off");
    reveal_strlit("error");
    reveal_strlit("warn");
    reveal_strlit("info");
    reveal_strlit("debug");
    reveal_strlit("trace");
    assert("off"@.len() == 3);
    assert("warn"@.len() == 4);
    assert("info"@.len() == 4);
    assert("error"@.len() == 5);
    assert("debug"@.len() == 5);
    assert("trace"@.len() == 5);
    assert("warn"@[0] == 'w' && "info"@[0] == 'i');
    assert("error"@[0] == 'e' && "debug"@[0] == 'd' && "trace"@[0] == 't');
}

/// The engine options: log level, the metrics switch, the partial target
/// in 90 kHz ticks, and the window size in segments.
#[derive(Clone, Copy, PartialEq, Eq, Debug, Structural)]
pub struct Opt {
    pub log_level: LogLevel,
    pub enable_metrics: bool,
    pub part_duration: u32,
    pub window_size: usize,
}

impl Default for Opt {
    /// Ten-second partials and a fifteen-segment window.
    fn default() -> (r: Self)
        ensures
            r.log_level == LogLevel::Info,
            !r.enable_metrics,
            r.part_duration == 900000,
            r.window_size == 15,
    {
        Opt {
            log_level: LogLevel::Info,
            enable_metrics: false,
            part_duration: 900000,
            window_size: 15,
        }
    }
}

/// The codec of a published packet.
#[derive(Clone, Copy, PartialEq, Eq, Debug, Structural)]
pub enum Codec {
    H264,
    H265,
    AAC,
}

/// One packet published into a session: its codec, payload, and
/// timestamps.
pub struct Packet {
    pub codec: Codec,
    pub data: Vec<u8>,
    pub pts: u64,
    pub dts: Option<u64>,
}

/// One message on a session channel.
pub enum Message {
    ClockRef(u64),
    Packet(Packet),
    Disconnect,
}

} // verus!
