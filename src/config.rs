//! Service settings, read from `NOISEBELL_*` variables with defaults, and
//! their validation.
//!
//! The host collects the process environment (after loading any `.env`
//! file) as name/value pairs; everything from there on happens here.

use vstd::prelude::*;
use vstd::string::*;
use crate::status::same_text;

verus! {

/// Why the settings could not be used.
#[derive(Debug, Clone, Copy, PartialEq, Eq, Structural)]
pub enum ConfigError {
    InvalidGpioPin,
    InvalidDebounceDelay,
    InvalidWebMonitorPort,
    InvalidWebMonitorEnabled,
    InvalidMaxBufferedLines,
    InvalidEndpointTimeout,
    InvalidRetryAttempts,
    InvalidNotifyOnStartup,
    PinOutOfRange,
    ZeroDebounceDelay,
    UnknownMonitorType,
}

/// The description of each error.
pub open spec fn config_error_text(e: ConfigError) -> Seq<char> {
    match e {
        ConfigError::InvalidGpioPin => "Invalid GPIO pin number"@,
        ConfigError::InvalidDebounceDelay => "Invalid debounce delay"@,
        ConfigError::InvalidWebMonitorPort => "Invalid web monitor port"@,
        ConfigError::InvalidWebMonitorEnabled => "Invalid web monitor enabled flag"@,
        ConfigError::InvalidMaxBufferedLines => "Invalid max buffered lines"@,
        ConfigError::InvalidEndpointTimeout => "Invalid endpoint timeout"@,
        ConfigError::InvalidRetryAttempts => "Invalid retry attempts"@,
        ConfigError::InvalidNotifyOnStartup => "Invalid notify-on-startup flag"@,
        ConfigError::PinOutOfRange => "GPIO pin must be at most 40"@,
        ConfigError::ZeroDebounceDelay => "Debounce delay must be greater than 0"@,
        ConfigError::UnknownMonitorType => "Unknown monitor type"@,
    }
}

impl ConfigError {
    /// A human-readable description.
    pub fn message(&self) -> (r: &'static str)
        ensures
            r@ == config_error_text(*self),
    {
        match self {
            ConfigError::InvalidGpioPin => "Invalid GPIO pin number",
            ConfigError::InvalidDebounceDelay => "Invalid debounce delay",
            ConfigError::InvalidWebMonitorPort => "Invalid web monitor port",
            ConfigError::InvalidWebMonitorEnabled => "Invalid web monitor enabled flag",
            ConfigError::InvalidMaxBufferedLines => "Invalid max buffered lines",
            ConfigError::InvalidEndpointTimeout => "Invalid endpoint timeout",
            ConfigError::InvalidRetryAttempts => "Invalid retry attempts",
            ConfigError::InvalidNotifyOnStartup => "Invalid notify-on-startup flag",
            ConfigError::PinOutOfRange => "GPIO pin must be at most 40",
            ConfigError::ZeroDebounceDelay => "Debounce delay must be greater than 0",
            ConfigError::UnknownMonitorType => "Unknown monitor type",
        }
    }
}

// ---------------------------------------------------------------------------
// Reading values

pub open spec fn is_digit(c: char) -> bool {
    '0' <= c && c <= '9'
}

pub open spec fn digit_value(c: char) -> nat {
    ((c as u32) - ('0' as u32)) as nat
}

/// The number that a string of decimal digits denotes.
pub open spec fn digits_value(d: Seq<char>) -> nat
    decreases d.len(),
{
    if d.len() == 0 {
        0
    } else {
        digits_value(d.drop_last()) * 10 + digit_value(d.last())
    }
}

/// The digits of an unsigned number: the text without one leading `+`.
pub open spec fn unsigned_digits(s: Seq<char>) -> Seq<char> {
    if s.len() > 0 && s[0] == '+' {
        s.drop_first()
    } else {
        s
    }
}

/// An unsigned decimal number no larger than `max`: an optional `+` and at
/// least one digit, nothing else, as Rust's unsigned integer types read it.
pub open spec fn unsigned_value(s: Seq<char>, max: nat) -> Option<nat> {
    let d = unsigned_digits(s);
    if d.len() > 0 && (forall|i: int| 0 <= i < d.len() ==> is_digit(#[trigger] d[i])) && digits_value(d) <= max {
        Some(digits_value(d))
    } else {
        None
    }
}

proof fn lemma_digits_value_grows(d: Seq<char>, k: int)
    requires
        0 <= k <= d.len(),
    ensures
        digits_value(d.take(k)) <= digits_value(d),
    decreases d.len() - k,
{
    if k < d.len() {
        lemma_digits_value_grows(d, k + 1);
        assert(d.take(k + 1).drop_last() =~= d.take(k));
    } else {
        assert(d.take(k) =~= d);
    }
}

/// Reads an unsigned decimal number no larger than `max`.
pub fn parse_unsigned(s: &str, max: u64) -> (r: Option<u64>)
    ensures
        r == match unsigned_value(s@, max as nat) {
            Some(v) => Some(v as u64),
            None => None::<u64>,
        },
{
    let n = s.unicode_len();
    let mut start: usize = 0;
    if n > 0 && s.get_char(0) == '+' {
        start = 1;
    }
    let ghost d = unsigned_digits(s@);
    assert(d =~= s@.skip(start as int));
    if start == n {
        return None;
    }
    let mut acc: u64 = 0;
    let mut i: usize = start;
    while i < n
        invariant
            n == s@.len(),
            start <= i <= n,
            start < n,
            d == unsigned_digits(s@),
            d =~= s@.skip(start as int),
            forall|j: int| 0 <= j < i - start ==> is_digit(#[trigger] d[j]),
            acc as nat == digits_value(d.take(i - start)),
            acc <= max,
        decreases n - i,
    {
        let c = s.get_char(i);
        assert(c == d[i - start]);
        if !(c >= '0' && c <= '9') {
            assert(!is_digit(d[i - start]));
            return None;
        }
        let dv: u64 = (c as u32 - '0' as u32) as u64;
        assert(d.take(i - start + 1).drop_last() =~= d.take(i - start));
        if dv > max || acc > (max - dv) / 10 {
            proof {
                let k = i - start + 1;
                assert(d.take(k).last() == c);
                assert(digits_value(d.take(k)) == acc * 10 + dv);
                assert(acc * 10 + dv > max) by (nonlinear_arith)
                    requires
                        dv > max || acc > (max - dv) / 10,
                        dv <= 9,
                ;
                if forall|j: int| 0 <= j < d.len() ==> is_digit(#[trigger] d[j]) {
                    lemma_digits_value_grows(d, k);
                }
            }
            return None;
        }
        assert(acc * 10 + dv <= max) by (nonlinear_arith)
            requires
                dv <= max,
                acc <= (max - dv) / 10,
        ;
        acc = acc * 10 + dv;
        i += 1;
    }
    assert(d.take(n - start) =~= d);
    Some(acc)
}

/// Reads `true` or `false`, exactly.
pub fn parse_bool(s: &str) -> (r: Option<bool>)
    ensures
        r == (if s@ == "true"@ {
            Some(true)
        } else if s@ == "false"@ {
            Some(false)
        } else {
            None
        }),
{
    if same_text(s, "true") {
        Some(true)
    } else if same_text(s, "false") {
        Some(false)
    } else {
        None
    }
}

// ---------------------------------------------------------------------------
// Looking values up

/// The value of the first variable named `key`, if any.
pub open spec fn lookup(vars: Seq<(String, String)>, key: Seq<char>) -> Option<Seq<char>>
    decreases vars.len(),
{
    if vars.len() == 0 {
        None
    } else if vars[0].0@ == key {
        Some(vars[0].1@)
    } else {
        lookup(vars.drop_first(), key)
    }
}

/// The value of the first variable named `key`, if any.
pub fn env_value(vars: &Vec<(String, String)>, key: &str) -> (r: Option<String>)
    ensures
        match r {
            Some(v) => lookup(vars@, key@) == Some(v@),
            None => lookup(vars@, key@) is None,
        },
{
    let mut i: usize = 0;
    assert(vars@.skip(0) =~= vars@);
    while i < vars.len()
        invariant
            i <= vars.len(),
            lookup(vars@, key@) == lookup(vars@.skip(i as int), key@),
        decreases vars.len() - i,
    {
        assert(vars@.skip(i as int).drop_first() =~= vars@.skip(i as int + 1));
        assert(vars@.skip(i as int)[0] == vars@[i as int]);
        if same_text(vars[i].0.as_str(), key) {
            return Some(vars[i].1.clone());
        }
        i += 1;
    }
    assert(vars@.skip(i as int) =~= Seq::<(String, String)>::empty());
    None
}

/// An unsigned setting: `default` when the variable is unset, its value when
/// that reads as a number no larger than `max`, else `None`.
pub open spec fn unsigned_setting(vars: Seq<(String, String)>, key: Seq<char>, default: nat, max: nat) -> Option<nat> {
    match lookup(vars, key) {
        None => Some(default),
        Some(v) => unsigned_value(v, max),
    }
}

/// A boolean setting: `default` when unset, else `true` or `false` exactly.
pub open spec fn bool_setting(vars: Seq<(String, String)>, key: Seq<char>, default: bool) -> Option<bool> {
    match lookup(vars, key) {
        None => Some(default),
        Some(v) => if v == "true"@ {
            Some(true)
        } else if v == "false"@ {
            Some(false)
        } else {
            None
        },
    }
}

/// A text setting: the variable's value, else the default.
pub open spec fn text_setting(vars: Seq<(String, String)>, key: Seq<char>, default: Seq<char>) -> Seq<char> {
    match lookup(vars, key) {
        None => default,
        Some(v) => v,
    }
}

fn unsigned_from(vars: &Vec<(String, String)>, key: &str, default: u64, max: u64) -> (r: Option<u64>)
    requires
        default <= max,
    ensures
        r == match unsigned_setting(vars@, key@, default as nat, max as nat) {
            Some(v) => Some(v as u64),
            None => None::<u64>,
        },
{
    match env_value(vars, key) {
        None => Some(default),
        Some(v) => parse_unsigned(v.as_str(), max),
    }
}

fn text_from(vars: &Vec<(String, String)>, key: &str, default: &str) -> (r: String)
    ensures
        r@ == text_setting(vars@, key@, default@),
{
    match env_value(vars, key) {
        None => default.to_owned(),
        Some(v) => v,
    }
}

// ---------------------------------------------------------------------------
// The settings

/// The pin the circuit is wired to and the debounce window in seconds.
#[derive(Debug, Clone, Copy, PartialEq, Eq, Structural)]
pub struct GpioConfig {
    pub pin: u8,
    pub debounce_delay_secs: u64,
}

/// The port of the page that drives a push-driven source, and whether it runs.
#[derive(Debug, Clone, Copy, PartialEq, Eq, Structural)]
pub struct WebMonitorConfig {
    pub port: u16,
    pub enabled: bool,
}

/// Where and how much the service logs.
#[derive(Debug, Clone)]
pub struct LoggingConfig {
    pub level: String,
    pub file_path: String,
    pub max_buffered_lines: usize,
}

/// Which signal source to use (`gpio` or `web`), and whether the state
/// sampled at start-up is reported as an event.
#[derive(Debug, Clone)]
pub struct MonitorConfig {
    pub monitor_type: String,
    pub notify_on_startup: bool,
}

/// The default notification target and the delivery settings.
#[derive(Debug, Clone)]
pub struct EndpointConfig {
    pub url: String,
    pub api_key: Option<String>,
    pub timeout_secs: u64,
    pub retry_attempts: u32,
}

/// All settings of the service.
#[derive(Debug, Clone)]
pub struct Config {
    pub gpio: GpioConfig,
    pub web_monitor: WebMonitorConfig,
    pub logging: LoggingConfig,
    pub monitor: MonitorConfig,
    pub endpoint: EndpointConfig,
}

/// The GPIO settings that `vars` give.
pub open spec fn gpio_setting(vars: Seq<(String, String)>) -> Result<GpioConfig, ConfigError> {
    match unsigned_setting(vars, "NOISEBELL_GPIO_PIN"@, 17, 255) {
        None => Err(ConfigError::InvalidGpioPin),
        Some(pin) => match unsigned_setting(vars, "NOISEBELL_GPIO_DEBOUNCE_DELAY_SECS"@, 5, u64::MAX as nat) {
            None => Err(ConfigError::InvalidDebounceDelay),
            Some(delay) => Ok(GpioConfig { pin: pin as u8, debounce_delay_secs: delay as u64 }),
        },
    }
}

/// The web monitor settings that `vars` give.
pub open spec fn web_monitor_setting(vars: Seq<(String, String)>) -> Result<WebMonitorConfig, ConfigError> {
    match unsigned_setting(vars, "NOISEBELL_WEB_MONITOR_PORT"@, 8080, 65535) {
        None => Err(ConfigError::InvalidWebMonitorPort),
        Some(port) => match bool_setting(vars, "NOISEBELL_WEB_MONITOR_ENABLED"@, true) {
            None => Err(ConfigError::InvalidWebMonitorEnabled),
            Some(enabled) => Ok(WebMonitorConfig { port: port as u16, enabled }),
        },
    }
}

/// The error, if any, in the logging settings that `vars` give.
pub open spec fn logging_error(vars: Seq<(String, String)>) -> Option<ConfigError> {
    if unsigned_setting(vars, "NOISEBELL_LOGGING_MAX_BUFFERED_LINES"@, 10000, usize::MAX as nat) is None {
        Some(ConfigError::InvalidMaxBufferedLines)
    } else {
        None
    }
}

/// The error, if any, in the monitor settings that `vars` give.
pub open spec fn monitor_error(vars: Seq<(String, String)>) -> Option<ConfigError> {
    if bool_setting(vars, "NOISEBELL_MONITOR_NOTIFY_ON_STARTUP"@, false) is None {
        Some(ConfigError::InvalidNotifyOnStartup)
    } else {
        None
    }
}

/// The error, if any, in the endpoint settings that `vars` give.
pub open spec fn endpoint_error(vars: Seq<(String, String)>) -> Option<ConfigError> {
    if unsigned_setting(vars, "NOISEBELL_ENDPOINT_TIMEOUT_SECS"@, 30, u64::MAX as nat) is None {
        Some(ConfigError::InvalidEndpointTimeout)
    } else if unsigned_setting(vars, "NOISEBELL_ENDPOINT_RETRY_ATTEMPTS"@, 3, u32::MAX as nat) is None {
        Some(ConfigError::InvalidRetryAttempts)
    } else {
        None
    }
}

/// The first error among all settings, in the order gpio, web monitor,
/// logging, monitor, endpoint.
pub open spec fn config_error(vars: Seq<(String, String)>) -> Option<ConfigError> {
    if gpio_setting(vars) is Err {
        Some(gpio_setting(vars)->Err_0)
    } else if web_monitor_setting(vars) is Err {
        Some(web_monitor_setting(vars)->Err_0)
    } else if logging_error(vars) is Some {
        logging_error(vars)
    } else if monitor_error(vars) is Some {
        monitor_error(vars)
    } else {
        endpoint_error(vars)
    }
}

impl LoggingConfig {
    /// The logging settings read from `vars`.
    pub open spec fn loaded_from(&self, vars: Seq<(String, String)>) -> bool {
        &&& self.level@ == text_setting(vars, "NOISEBELL_LOGGING_LEVEL"@, "info"@)
        &&& self.file_path@ == text_setting(vars, "NOISEBELL_LOGGING_FILE_PATH"@, "logs/noisebell.log"@)
        &&& unsigned_setting(vars, "NOISEBELL_LOGGING_MAX_BUFFERED_LINES"@, 10000, usize::MAX as nat)
            == Some(self.max_buffered_lines as nat)
    }

    /// Reads `NOISEBELL_LOGGING_LEVEL` (default `info`),
    /// `NOISEBELL_LOGGING_FILE_PATH` (default `logs/noisebell.log`) and
    /// `NOISEBELL_LOGGING_MAX_BUFFERED_LINES` (default 10000).
    pub fn from_env(vars: &Vec<(String, String)>) -> (r: Result<LoggingConfig, ConfigError>)
        ensures
            match logging_error(vars@) {
                Some(e) => r == Err::<LoggingConfig, ConfigError>(e),
                None => r is Ok && r->Ok_0.loaded_from(vars@),
            },
    {
        let level = text_from(vars, "NOISEBELL_LOGGING_LEVEL", "info");
        let file_path = text_from(vars, "NOISEBELL_LOGGING_FILE_PATH", "logs/noisebell.log");
        match unsigned_from(vars, "NOISEBELL_LOGGING_MAX_BUFFERED_LINES", 10000, usize::MAX as u64) {
            None => Err(ConfigError::InvalidMaxBufferedLines),
            Some(n) => Ok(LoggingConfig { level, file_path, max_buffered_lines: n as usize }),
        }
    }
}

impl MonitorConfig {
    /// The monitor settings read from `vars`.
    pub open spec fn loaded_from(&self, vars: Seq<(String, String)>) -> bool {
        &&& self.monitor_type@ == text_setting(vars, "NOISEBELL_MONITOR_TYPE"@, "web"@)
        &&& bool_setting(vars, "NOISEBELL_MONITOR_NOTIFY_ON_STARTUP"@, false) == Some(self.notify_on_startup)
    }

    /// Reads `NOISEBELL_MONITOR_TYPE` (default `web`) and
    /// `NOISEBELL_MONITOR_NOTIFY_ON_STARTUP` (default `false`).
    pub fn from_env(vars: &Vec<(String, String)>) -> (r: Result<MonitorConfig, ConfigError>)
        ensures
            match monitor_error(vars@) {
                Some(e) => r == Err::<MonitorConfig, ConfigError>(e),
                None => r is Ok && r->Ok_0.loaded_from(vars@),
            },
    {
        let monitor_type = text_from(vars, "NOISEBELL_MONITOR_TYPE", "web");
        let notify_on_startup = match env_value(vars, "NOISEBELL_MONITOR_NOTIFY_ON_STARTUP") {
            None => false,
            Some(v) => match parse_bool(v.as_str()) {
                None => {
                    return Err(ConfigError::InvalidNotifyOnStartup);
                },
                Some(b) => b,
            },
        };
        Ok(MonitorConfig { monitor_type, notify_on_startup })
    }
}

impl EndpointConfig {
    /// The endpoint settings read from `vars`.
    pub open spec fn loaded_from(&self, vars: Seq<(String, String)>) -> bool {
        &&& self.url@ == text_setting(vars, "NOISEBELL_ENDPOINT_URL"@, "https://noisebell.jetpham.com/api/status"@)
        &&& match self.api_key {
            Some(k) => lookup(vars, "ENDPOINT_API_KEY"@) == Some(k@),
            None => lookup(vars, "ENDPOINT_API_KEY"@) is None,
        }
        &&& unsigned_setting(vars, "NOISEBELL_ENDPOINT_TIMEOUT_SECS"@, 30, u64::MAX as nat) == Some(
            self.timeout_secs as nat,
        )
        &&& unsigned_setting(vars, "NOISEBELL_ENDPOINT_RETRY_ATTEMPTS"@, 3, u32::MAX as nat) == Some(
            self.retry_attempts as nat,
        )
    }

    /// Reads `NOISEBELL_ENDPOINT_URL`, `ENDPOINT_API_KEY` (optional),
    /// `NOISEBELL_ENDPOINT_TIMEOUT_SECS` (default 30) and
    /// `NOISEBELL_ENDPOINT_RETRY_ATTEMPTS` (default 3).
    pub fn from_env(vars: &Vec<(String, String)>) -> (r: Result<EndpointConfig, ConfigError>)
        ensures
            match endpoint_error(vars@) {
                Some(e) => r == Err::<EndpointConfig, ConfigError>(e),
                None => r is Ok && r->Ok_0.loaded_from(vars@),
            },
    {
        let url = text_from(vars, "NOISEBELL_ENDPOINT_URL", "https://noisebell.jetpham.com/api/status");
        let api_key = env_value(vars, "ENDPOINT_API_KEY");
        let timeout_secs = match unsigned_from(vars, "NOISEBELL_ENDPOINT_TIMEOUT_SECS", 30, u64::MAX) {
            None => {
                return Err(ConfigError::InvalidEndpointTimeout);
            },
            Some(t) => t,
        };
        let retry_attempts = match unsigned_from(vars, "NOISEBELL_ENDPOINT_RETRY_ATTEMPTS", 3, u32::MAX as u64) {
            None => {
                return Err(ConfigError::InvalidRetryAttempts);
            },
            Some(n) => n as u32,
        };
        Ok(EndpointConfig { url, api_key, timeout_secs, retry_attempts })
    }
}

impl GpioConfig {
    /// Reads `NOISEBELL_GPIO_PIN` (default 17) and
    /// `NOISEBELL_GPIO_DEBOUNCE_DELAY_SECS` (default 5).
    pub fn from_env(vars: &Vec<(String, String)>) -> (r: Result<GpioConfig, ConfigError>)
        ensures
            r == gpio_setting(vars@),
    {
        let pin = match unsigned_from(vars, "NOISEBELL_GPIO_PIN", 17, 255) {
            None => {
                return Err(ConfigError::InvalidGpioPin);
            },
            Some(p) => p as u8,
        };
        let delay = match unsigned_from(vars, "NOISEBELL_GPIO_DEBOUNCE_DELAY_SECS", 5, u64::MAX) {
            None => {
                return Err(ConfigError::InvalidDebounceDelay);
            },
            Some(d) => d,
        };
        Ok(GpioConfig { pin, debounce_delay_secs: delay })
    }
}

impl WebMonitorConfig {
    /// Reads `NOISEBELL_WEB_MONITOR_PORT` (default 8080) and
    /// `NOISEBELL_WEB_MONITOR_ENABLED` (default `true`).
    pub fn from_env(vars: &Vec<(String, String)>) -> (r: Result<WebMonitorConfig, ConfigError>)
        ensures
            r == web_monitor_setting(vars@),
    {
        let port = match unsigned_from(vars, "NOISEBELL_WEB_MONITOR_PORT", 8080, 65535) {
            None => {
                return Err(ConfigError::InvalidWebMonitorPort);
            },
            Some(p) => p as u16,
        };
        let enabled = match env_value(vars, "NOISEBELL_WEB_MONITOR_ENABLED") {
            None => true,
            Some(v) => match parse_bool(v.as_str()) {
                None => {
                    return Err(ConfigError::InvalidWebMonitorEnabled);
                },
                Some(b) => b,
            },
        };
        Ok(WebMonitorConfig { port, enabled })
    }
}

/// Whether a monitor type is one the service knows.
pub open spec fn known_monitor_type(t: Seq<char>) -> bool {
    t == "gpio"@ || t == "web"@
}

/// The debounce window in milliseconds for a delay in seconds, saturating.
pub open spec fn delay_millis(secs: u64) -> u64 {
    if secs * 1000 <= u64::MAX {
        (secs * 1000) as u64
    } else {
        u64::MAX
    }
}

impl Config {
    /// Reads every setting from `vars`; the first invalid one, in the order
    /// gpio, web monitor, logging, monitor, endpoint, is reported.
    pub fn from_env(vars: &Vec<(String, String)>) -> (r: Result<Config, ConfigError>)
        ensures
            match config_error(vars@) {
                Some(e) => r == Err::<Config, ConfigError>(e),
                None => r is Ok && gpio_setting(vars@) == Ok::<GpioConfig, ConfigError>(r->Ok_0.gpio)
                    && web_monitor_setting(vars@) == Ok::<WebMonitorConfig, ConfigError>(r->Ok_0.web_monitor)
                    && r->Ok_0.logging.loaded_from(vars@) && r->Ok_0.monitor.loaded_from(vars@)
                    && r->Ok_0.endpoint.loaded_from(vars@),
            },
    {
        let gpio = match GpioConfig::from_env(vars) {
            Ok(g) => g,
            Err(e) => {
                return Err(e);
            },
        };
        let web_monitor = match WebMonitorConfig::from_env(vars) {
            Ok(w) => w,
            Err(e) => {
                return Err(e);
            },
        };
        let logging = match LoggingConfig::from_env(vars) {
            Ok(l) => l,
            Err(e) => {
                return Err(e);
            },
        };
        let monitor = match MonitorConfig::from_env(vars) {
            Ok(m) => m,
            Err(e) => {
                return Err(e);
            },
        };
        let endpoint = match EndpointConfig::from_env(vars) {
            Ok(p) => p,
            Err(e) => {
                return Err(e);
            },
        };
        Ok(Config { gpio, web_monitor, logging, monitor, endpoint })
    }

    /// Checks the settings: the pin is at most 40, the debounce delay is
    /// positive, and the monitor type is `gpio` or `web`, checked in that order.
    pub fn validate(&self) -> (r: Result<(), ConfigError>)
        ensures
            r == (if self.gpio.pin > 40 {
                Err(ConfigError::PinOutOfRange)
            } else if self.gpio.debounce_delay_secs == 0 {
                Err(ConfigError::ZeroDebounceDelay)
            } else if !known_monitor_type(self.monitor.monitor_type@) {
                Err(ConfigError::UnknownMonitorType)
            } else {
                Ok(())
            }),
    {
        if self.gpio.pin > 40 {
            return Err(ConfigError::PinOutOfRange);
        }
        if self.gpio.debounce_delay_secs == 0 {
            return Err(ConfigError::ZeroDebounceDelay);
        }
        let t = self.monitor.monitor_type.as_str();
        if !(same_text(t, "gpio") || same_text(t, "web")) {
            return Err(ConfigError::UnknownMonitorType);
        }
        Ok(())
    }

    /// The debounce window in milliseconds (saturating at `u64::MAX`).
    pub fn get_debounce_delay(&self) -> (r: u64)
        ensures
            r == delay_millis(self.gpio.debounce_delay_secs),
    {
        let secs = self.gpio.debounce_delay_secs;
        if secs <= u64::MAX / 1000 {
            secs * 1000
        } else {
            u64::MAX
        }
    }
}

} // verus!
