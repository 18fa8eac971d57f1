use noisebell::config::{
    env_value, parse_bool, parse_unsigned, Config, ConfigError, EndpointConfig, GpioConfig, LoggingConfig,
    MonitorConfig, WebMonitorConfig,
};

fn vars(pairs: &[(&str, &str)]) -> Vec<(String, String)> {
    pairs.iter().map(|(k, v)| (k.to_string(), v.to_string())).collect()
}

#[test]
fn defaults_when_nothing_is_set() {
    let c = Config::from_env(&Vec::new()).ok().unwrap();
    assert_eq!(c.gpio, GpioConfig { pin: 17, debounce_delay_secs: 5 });
    assert_eq!(c.web_monitor, WebMonitorConfig { port: 8080, enabled: true });
    assert_eq!(c.logging.level, "info");
    assert_eq!(c.logging.file_path, "logs/noisebell.log");
    assert_eq!(c.logging.max_buffered_lines, 10000);
    assert_eq!(c.monitor.monitor_type, "web");
    assert_eq!(c.endpoint.url, "https://noisebell.jetpham.com/api/status");
    assert_eq!(c.endpoint.api_key, None);
    assert_eq!(c.endpoint.timeout_secs, 30);
    assert_eq!(c.endpoint.retry_attempts, 3);
    assert!(c.validate().is_ok());
    assert_eq!(c.get_debounce_delay(), 5000);
}

#[test]
fn values_are_read() {
    let v = vars(&[
        ("NOISEBELL_GPIO_PIN", "+22"),
        ("NOISEBELL_GPIO_DEBOUNCE_DELAY_SECS", "2"),
        ("NOISEBELL_WEB_MONITOR_ENABLED", "false"),
        ("NOISEBELL_MONITOR_TYPE", "gpio"),
        ("ENDPOINT_API_KEY", "SECRET-REDACTED"),
        ("NOISEBELL_ENDPOINT_RETRY_ATTEMPTS", "7"),
    ]);
    let c = Config::from_env(&v).ok().unwrap();
    assert_eq!(c.gpio, GpioConfig { pin: 22, debounce_delay_secs: 2 });
    assert!(!c.web_monitor.enabled);
    assert_eq!(c.monitor.monitor_type, "gpio");
    assert_eq!(c.endpoint.api_key, Some("SECRET-REDACTED".to_string()));
    assert_eq!(c.endpoint.retry_attempts, 7);
}

#[test]
fn each_invalid_value_is_reported() {
    let cases = [
        ("NOISEBELL_GPIO_PIN", "256", ConfigError::InvalidGpioPin),
        ("NOISEBELL_GPIO_DEBOUNCE_DELAY_SECS", "-1", ConfigError::InvalidDebounceDelay),
        ("NOISEBELL_WEB_MONITOR_PORT", "65536", ConfigError::InvalidWebMonitorPort),
        ("NOISEBELL_WEB_MONITOR_ENABLED", "yes", ConfigError::InvalidWebMonitorEnabled),
        ("NOISEBELL_LOGGING_MAX_BUFFERED_LINES", "", ConfigError::InvalidMaxBufferedLines),
        ("NOISEBELL_ENDPOINT_TIMEOUT_SECS", "3s", ConfigError::InvalidEndpointTimeout),
        ("NOISEBELL_ENDPOINT_RETRY_ATTEMPTS", "4294967296", ConfigError::InvalidRetryAttempts),
    ];
    for (k, v, e) in cases {
        assert_eq!(Config::from_env(&vars(&[(k, v)])).err(), Some(e));
    }
}

#[test]
fn first_invalid_value_wins() {
    let v = vars(&[("NOISEBELL_ENDPOINT_TIMEOUT_SECS", "x"), ("NOISEBELL_WEB_MONITOR_PORT", "x")]);
    assert_eq!(Config::from_env(&v).err(), Some(ConfigError::InvalidWebMonitorPort));
}

#[test]
fn sections_read_alone() {
    let v = vars(&[("NOISEBELL_LOGGING_LEVEL", "debug"), ("NOISEBELL_ENDPOINT_URL", "http://h/")]);
    assert_eq!(LoggingConfig::from_env(&v).ok().unwrap().level, "debug");
    assert_eq!(MonitorConfig::from_env(&v).ok().unwrap().monitor_type, "web");
    assert_eq!(EndpointConfig::from_env(&v).ok().unwrap().url, "http://h/");
    assert_eq!(GpioConfig::from_env(&v), Ok(GpioConfig { pin: 17, debounce_delay_secs: 5 }));
    assert_eq!(WebMonitorConfig::from_env(&v), Ok(WebMonitorConfig { port: 8080, enabled: true }));
}

#[test]
fn validation_order() {
    let mut c = Config::from_env(&Vec::new()).ok().unwrap();
    c.gpio.pin = 41;
    c.gpio.debounce_delay_secs = 0;
    assert_eq!(c.validate(), Err(ConfigError::PinOutOfRange));
    c.gpio.pin = 40;
    assert_eq!(c.validate(), Err(ConfigError::ZeroDebounceDelay));
    c.gpio.debounce_delay_secs = 1;
    c.monitor.monitor_type = "serial".to_string();
    assert_eq!(c.validate(), Err(ConfigError::UnknownMonitorType));
    c.monitor.monitor_type = "gpio".to_string();
    assert_eq!(c.validate(), Ok(()));
    assert_eq!(c.validate().err().map(|e| e.message()), None);
    assert_eq!(ConfigError::PinOutOfRange.message(), "GPIO pin must be at most 40");
}

#[test]
fn debounce_delay_saturates() {
    let mut c = Config::from_env(&Vec::new()).ok().unwrap();
    c.gpio.debounce_delay_secs = u64::MAX / 1000 + 1;
    assert_eq!(c.get_debounce_delay(), u64::MAX);
    c.gpio.debounce_delay_secs = 3;
    assert_eq!(c.get_debounce_delay(), 3000);
}

#[test]
fn unsigned_parsing_matches_std() {
    for s in ["0", "17", "+5", "255", "256", "", "+", "-1", " 1", "1 ", "0x10", "007", "++1", "\u{661}"] {
        assert_eq!(parse_unsigned(s, 255), s.parse::<u8>().ok().map(|v| v as u64), "{s:?}");
    }
    assert_eq!(parse_unsigned("18446744073709551615", u64::MAX), Some(u64::MAX));
    assert_eq!(parse_unsigned("18446744073709551616", u64::MAX), None);
}

#[test]
fn bool_parsing_is_exact() {
    assert_eq!(parse_bool("true"), Some(true));
    assert_eq!(parse_bool("false"), Some(false));
    assert_eq!(parse_bool("True"), None);
}

#[test]
fn first_matching_variable_is_used() {
    let v = vars(&[("A", "1"), ("B", "2"), ("A", "3")]);
    assert_eq!(env_value(&v, "A"), Some("1".to_string()));
    assert_eq!(env_value(&v, "C"), None);
}

#[test]
fn startup_notification_flag() {
    let c = Config::from_env(&Vec::new()).ok().unwrap();
    assert!(!c.monitor.notify_on_startup);
    let c = Config::from_env(&vars(&[("NOISEBELL_MONITOR_NOTIFY_ON_STARTUP", "true")])).ok().unwrap();
    assert!(c.monitor.notify_on_startup);
    let bad = vars(&[("NOISEBELL_MONITOR_NOTIFY_ON_STARTUP", "1")]);
    assert_eq!(Config::from_env(&bad).err(), Some(ConfigError::InvalidNotifyOnStartup));
    assert_eq!(MonitorConfig::from_env(&bad).err(), Some(ConfigError::InvalidNotifyOnStartup));
}
