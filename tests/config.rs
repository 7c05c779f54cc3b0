use homecontrol_ui_server::config::{
    broker_config, channel_size, client_id_from, http_port, mqtt_client_id, mqtt_credentials,
    mqtt_host, mqtt_keepalive, mqtt_port, parse_decimal, BrokerSettings, ConfigError,
};

fn some(t: &str) -> Option<String> {
    Some(t.to_string())
}

#[test]
fn decimal_numbers() {
    assert_eq!(parse_decimal("0", 10), Some(0));
    assert_eq!(parse_decimal("007", 10), Some(7));
    assert_eq!(parse_decimal("+12", 100), Some(12));
    assert_eq!(parse_decimal("65535", 65535), Some(65535));
    assert_eq!(parse_decimal("65536", 65535), None);
    assert_eq!(parse_decimal("18446744073709551615", u64::MAX), Some(u64::MAX));
    assert_eq!(parse_decimal("18446744073709551616", u64::MAX), None);
    assert_eq!(parse_decimal("", 10), None);
    assert_eq!(parse_decimal("+", 10), None);
    assert_eq!(parse_decimal("-1", 10), None);
    assert_eq!(parse_decimal(" 1", 10), None);
    assert_eq!(parse_decimal("1a", 10), None);
    assert_eq!(parse_decimal("99999999999999999999x", u64::MAX), None);
}

#[test]
fn broker_port() {
    assert_eq!(mqtt_port(None), Ok(1883));
    assert_eq!(mqtt_port(some("8883")), Ok(8883));
    assert_eq!(mqtt_port(some("70000")), Err(ConfigError::InvalidBrokerPort));
    assert_eq!(mqtt_port(some("port")), Err(ConfigError::InvalidBrokerPort));
}

#[test]
fn keep_alive() {
    assert_eq!(mqtt_keepalive(None), Ok(15));
    assert_eq!(mqtt_keepalive(some("60")), Ok(60));
    assert_eq!(mqtt_keepalive(some("1.5")), Err(ConfigError::InvalidKeepAlive));
}

#[test]
fn server_port_and_mailbox_size() {
    assert_eq!(http_port(None), Ok(3000));
    assert_eq!(http_port(some("8080")), Ok(8080));
    assert_eq!(http_port(some("")), Err(ConfigError::InvalidHttpPort));
    assert_eq!(channel_size(None), Ok(8));
    assert_eq!(channel_size(some("32")), Ok(32));
    assert_eq!(channel_size(some("0")), Err(ConfigError::InvalidChannelSize));
    assert_eq!(channel_size(some("x")), Err(ConfigError::InvalidChannelSize));
}

#[test]
fn broker_host() {
    assert_eq!(mqtt_host(None), "test.mosquitto.org");
    assert_eq!(mqtt_host(some("broker.local")), "broker.local");
}

#[test]
fn credentials() {
    assert_eq!(
        mqtt_credentials(some("u"), some("p")),
        Some(("u".to_string(), "p".to_string()))
    );
    assert_eq!(mqtt_credentials(some(""), some("p")), None);
    assert_eq!(mqtt_credentials(some("u"), some("")), None);
    assert_eq!(mqtt_credentials(some("u"), None), None);
    assert_eq!(mqtt_credentials(None, some("p")), None);
}

#[test]
fn client_ids() {
    assert_eq!(client_id_from(some("me"), some("h"), "x"), Ok("me".to_string()));
    assert_eq!(
        client_id_from(some(""), None, "x"),
        Err(ConfigError::EmptyClientId)
    );
    assert_eq!(
        client_id_from(None, some("pi"), "Ab3dEf9h"),
        Ok("hcs-pi-Ab3dEf9h".to_string())
    );
    assert_eq!(
        client_id_from(None, None, "12345678"),
        Ok("hcs-client-12345678".to_string())
    );
}

#[test]
fn generated_client_id_has_random_alphanumeric_suffix() {
    let id = mqtt_client_id(None, some("box")).unwrap();
    assert!(id.starts_with("hcs-box-"));
    let suffix = &id["hcs-box-".len()..];
    assert_eq!(suffix.len(), 8);
    assert!(suffix.chars().all(|c| c.is_ascii_alphanumeric()));
    assert_eq!(mqtt_client_id(some("fixed"), None), Ok("fixed".to_string()));
    assert_eq!(mqtt_client_id(some(""), None), Err(ConfigError::EmptyClientId));
}

fn settings() -> BrokerSettings {
    BrokerSettings {
        client_id: some("id"),
        host_name: None,
        host: None,
        port: None,
        keep_alive: None,
        username: some("user"),
        password: some("pass"),
    }
}

#[test]
fn broker_config_defaults_and_errors() {
    let b = broker_config(settings()).unwrap();
    assert_eq!(b.client_id, "id");
    assert_eq!(b.host, "test.mosquitto.org");
    assert_eq!(b.port, 1883);
    assert_eq!(b.keep_alive_secs, 15);
    assert_eq!(
        b.credentials,
        Some(("user".to_string(), "pass".to_string()))
    );
    let mut s = settings();
    s.client_id = some("");
    s.port = some("x");
    assert!(matches!(broker_config(s), Err(ConfigError::EmptyClientId)));
    let mut s = settings();
    s.port = some("x");
    s.keep_alive = some("y");
    assert!(matches!(broker_config(s), Err(ConfigError::InvalidBrokerPort)));
    let mut s = settings();
    s.keep_alive = some("y");
    assert!(matches!(broker_config(s), Err(ConfigError::InvalidKeepAlive)));
}
