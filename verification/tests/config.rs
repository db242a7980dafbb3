use tickers::config::{
    default_check_interval, default_db_url, default_expected_status, default_port,
    default_static_dir, default_timeout, Config, ConfigError, DatabaseConfig, DefaultsConfig,
    ServerConfig, ServiceConfig, TelegramConfig,
};

fn service(id: &str, url: &str) -> ServiceConfig {
    ServiceConfig {
        id: id.into(),
        name: id.to_uppercase(),
        url: url.into(),
        expected_status: 200,
        check_interval: None,
        timeout: None,
        expected_body: None,
    }
}

fn config(services: Vec<ServiceConfig>) -> Config {
    Config {
        server: ServerConfig::default(),
        defaults: DefaultsConfig::default(),
        database: DatabaseConfig::default(),
        services,
    }
}

#[test]
fn defaults() {
    assert_eq!(default_port(), 8080);
    assert_eq!(default_static_dir(), "./frontend/dist");
    assert_eq!(default_check_interval(), 60);
    assert_eq!(default_timeout(), 10);
    assert_eq!(default_db_url(), "sqlite://data/tickers.db");
    assert_eq!(default_expected_status(), 200);
    let s = ServerConfig::default();
    assert_eq!((s.port, s.static_dir.as_str()), (8080, "./frontend/dist"));
    let d = DefaultsConfig::default();
    assert_eq!((d.check_interval, d.timeout), (60, 10));
    assert_eq!(DatabaseConfig::default().url, "sqlite://data/tickers.db");
}

#[test]
fn effective_settings_fall_back() {
    let d = DefaultsConfig { check_interval: 30, timeout: 5 };
    let mut s = service("a", "https://a.example");
    assert_eq!(s.effective_check_interval(&d), 30);
    assert_eq!(s.effective_timeout(&d), 5);
    s.check_interval = Some(7);
    s.timeout = Some(2);
    assert_eq!(s.effective_check_interval(&d), 7);
    assert_eq!(s.effective_timeout(&d), 2);
}

#[test]
fn validation_accepts_good_config() {
    let c = config(vec![service("a", "https://a.example/health"), service("b", "http://b.example")]);
    assert!(c.validate().is_ok());
    assert!(config(vec![]).validate().is_ok());
}

#[test]
fn validation_rejects_duplicate_ids_first() {
    let c = config(vec![
        service("a", "https://a.example"),
        service("b", "not a url"),
        service("a", "https://c.example"),
    ]);
    match c.validate() {
        Err(ConfigError::InvalidUrl(id, url)) => {
            assert_eq!(id, "b");
            assert_eq!(url, "not a url");
        }
        other => panic!("unexpected {:?}", other),
    }
    let c = config(vec![service("a", "https://a.example"), service("a", "nope")]);
    match c.validate() {
        Err(ConfigError::DuplicateServiceId(id)) => assert_eq!(id, "a"),
        other => panic!("unexpected {:?}", other),
    }
}

#[test]
fn load_or_default_behaviour() {
    let c = Config::load_or_default(None).unwrap();
    assert_eq!(c.server.port, 8080);
    assert_eq!(c.server.static_dir, "./frontend/dist");
    assert_eq!(c.defaults.check_interval, 60);
    assert_eq!(c.defaults.timeout, 10);
    assert_eq!(c.database.url, "sqlite://data/tickers.db");
    assert!(c.services.is_empty());

    let ok = Config::load_or_default(Some(config(vec![service("a", "https://a.example")]))).unwrap();
    assert_eq!(ok.services.len(), 1);

    match Config::load_or_default(Some(config(vec![service("a", "relative/path")]))) {
        Err(ConfigError::InvalidUrl(id, _)) => assert_eq!(id, "a"),
        other => panic!("unexpected {:?}", other.map(|c| c.services.len())),
    }
}

#[test]
fn telegram_needs_token_and_chat() {
    let t = TelegramConfig { bot_token: "123:abc".into(), chat_ids: vec!["42".into()] };
    assert!(t.is_enabled());
    let t = TelegramConfig { bot_token: String::new(), chat_ids: vec!["42".into()] };
    assert!(!t.is_enabled());
    let t = TelegramConfig { bot_token: "123:abc".into(), chat_ids: vec![] };
    assert!(!t.is_enabled());
}

#[test]
fn config_error_messages() {
    assert_eq!(ConfigError::Io("gone".into()).message(), "Failed to read config file: gone");
    assert_eq!(ConfigError::Parse("bad".into()).message(), "Failed to parse TOML: bad");
    assert_eq!(ConfigError::DuplicateServiceId("a".into()).message(), "Duplicate service ID: a");
    assert_eq!(
        ConfigError::InvalidUrl("a".into(), "x".into()).message(),
        "Invalid URL for service 'a': x"
    );
}

#[test]
fn body_expectation_is_the_configured_text() {
    let mut s = service("a", "https://a.example");
    assert!(matches!(s.parse_expected_body(), Ok(None)));
    s.expected_body = Some("healthy".into());
    match s.parse_expected_body() {
        Ok(Some(tickers::check::BodyExpectation::Contains(t))) => assert_eq!(t, "healthy"),
        other => panic!("unexpected {:?}", other),
    }
}
