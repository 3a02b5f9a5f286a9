use vstd::prelude::*;

verus! {

/// Default store location.
pub const DEFAULT_DATABASE_URL: &'static str = "postgres://localhost/wifitify";

/// Default time between full sweeps, in seconds.
pub const DEFAULT_TIME_BETWEEN_SWEEPS: i64 = 7200;

/// Default dwell time on a channel during a sweep, in milliseconds.
pub const DEFAULT_SWEEP_CHANNEL_SWITCH_TIMEOUT: i64 = 5000;

/// Default dwell time on a watched channel, in milliseconds.
pub const DEFAULT_CHANNEL_SWITCH_TIMEOUT: i64 = 250;

/// Settings of the collector.
#[derive(Clone, Copy, Debug, PartialEq, Eq, Structural)]
pub struct Collector {
    /// Sweep all channels once on startup.
    pub sweep_on_startup: bool,
    /// Sweep all channels all the time.
    pub always_sweep: bool,
    /// Stay on this channel instead of cycling the watched ones.
    pub fixed_channel: Option<i32>,
    /// Time between full sweeps, in seconds.
    pub time_between_sweeps: i64,
    /// Dwell time on a channel during a sweep, in milliseconds.
    pub sweep_channel_switch_timeout: i64,
    /// Dwell time on a watched channel, in milliseconds.
    pub channel_switch_timeout: i64,
}

/// All settings.
#[derive(Clone, Debug)]
pub struct Config {
    /// Where the catalog is stored.
    pub database_url: String,
    pub collector: Collector,
}

impl Collector {
    /// The defaults: sweep on startup, no permanent sweep, no fixed channel,
    /// two hours between sweeps, 5 s per channel in a sweep, 250 ms otherwise.
    pub fn default_settings() -> (r: Collector)
        ensures
            r.sweep_on_startup,
            !r.always_sweep,
            r.fixed_channel.is_none(),
            r.time_between_sweeps == DEFAULT_TIME_BETWEEN_SWEEPS,
            r.sweep_channel_switch_timeout == DEFAULT_SWEEP_CHANNEL_SWITCH_TIMEOUT,
            r.channel_switch_timeout == DEFAULT_CHANNEL_SWITCH_TIMEOUT,
    {
        Collector {
            sweep_on_startup: true,
            always_sweep: false,
            fixed_channel: None,
            time_between_sweeps: DEFAULT_TIME_BETWEEN_SWEEPS,
            sweep_channel_switch_timeout: DEFAULT_SWEEP_CHANNEL_SWITCH_TIMEOUT,
            channel_switch_timeout: DEFAULT_CHANNEL_SWITCH_TIMEOUT,
        }
    }
}

impl Config {
    /// The configuration written on first run.
    pub fn default_settings() -> (r: Config)
        ensures
            r.database_url@ == DEFAULT_DATABASE_URL@,
            r.collector.sweep_on_startup,
            !r.collector.always_sweep,
            r.collector.fixed_channel.is_none(),
            r.collector.time_between_sweeps == DEFAULT_TIME_BETWEEN_SWEEPS,
            r.collector.sweep_channel_switch_timeout == DEFAULT_SWEEP_CHANNEL_SWITCH_TIMEOUT,
            r.collector.channel_switch_timeout == DEFAULT_CHANNEL_SWITCH_TIMEOUT,
    {
        Config { database_url: DEFAULT_DATABASE_URL.to_owned(), collector: Collector::default_settings() }
    }
}

/// Command-line arguments of the collector.
#[derive(Clone, Debug)]
pub struct CliArguments {
    /// How often `-v` was given: 0 errors only, 1 warnings, 2 info, more debug.
    pub verbose: u8,
    /// The monitor-mode interface to listen on.
    pub device: String,
}

/// Log levels, from quiet to verbose.
#[derive(Clone, Copy, Debug, PartialEq, Eq, Structural)]
pub enum Verbosity {
    Error,
    Warn,
    Info,
    Debug,
}

/// The log level that a count of `-v` flags selects.
pub fn verbosity(count: u8) -> (r: Verbosity)
    ensures
        r == if count == 0 {
            Verbosity::Error
        } else if count == 1 {
            Verbosity::Warn
        } else if count == 2 {
            Verbosity::Info
        } else {
            Verbosity::Debug
        },
{
    match count {
        0 => Verbosity::Error,
        1 => Verbosity::Warn,
        2 => Verbosity::Info,
        _ => Verbosity::Debug,
    }
}

} // verus!
