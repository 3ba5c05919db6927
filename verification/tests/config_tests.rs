use rmdadm::config::{Config, EnvOverrides};

#[test]
fn test_default_config() {
    let config = Config::default();
    assert_eq!(config.server.bind_address, "0.0.0.0:8080");
    assert!(!config.auth.disable_auth);
    assert!(config.rate_limit.enabled);
}

#[test]
fn test_env_overrides() {
    let mut env = EnvOverrides::none();
    env.bind_address = Some("0.0.0.0:7070".to_string());
    env.jwt_secret = Some("env-secret".to_string());

    let mut config = Config::default();
    config.apply_env_overrides(&env);

    assert_eq!(config.server.bind_address, "0.0.0.0:7070");
    assert_eq!(config.auth.jwt_secret, "env-secret");
}

#[test]
fn env_numbers_replace_settings_only_when_they_parse() {
    let mut env = EnvOverrides::none();
    env.rate_limit_max = Some("50".to_string());
    env.rate_limit_window = Some("abc".to_string());
    env.disable_rate_limit = Some(String::new());
    env.disable_auth = Some("1".to_string());
    env.api_key = Some("key".to_string());
    let mut config = Config::default();
    config.apply_env_overrides(&env);
    assert_eq!(config.rate_limit.max_requests, 50);
    assert_eq!(config.rate_limit.window_seconds, 60);
    assert!(!config.rate_limit.enabled);
    assert!(config.auth.disable_auth);
    assert_eq!(config.auth.api_key.as_deref(), Some("key"));
}

#[test]
fn tls_without_certificate_is_refused() {
    let mut config = Config::default();
    config.server.enable_tls = true;
    assert_eq!(config.validate().unwrap_err(), "TLS enabled but certificate or key path not specified");
    config.server.tls_cert = Some("/c".to_string());
    config.server.tls_key = Some("/k".to_string());
    assert!(config.validate().is_ok());
}

#[test]
fn load_uses_defaults_without_a_file_and_keeps_file_errors() {
    let env = EnvOverrides::none();
    let c = Config::load(None, &env).unwrap();
    assert_eq!(c.monitoring.interval_seconds, 60);
    assert_eq!(Config::load(Some(Err("bad yaml".to_string())), &env).unwrap_err(), "bad yaml");
    let mut file = Config::default();
    file.server.enable_tls = true;
    assert!(Config::load(Some(Ok(file)), &env).is_err());
}

#[test]
fn durations_are_the_configured_seconds() {
    let mut config = Config::default();
    config.rate_limit.window_seconds = 7;
    config.monitoring.interval_seconds = 9;
    assert_eq!(config.rate_limit_duration().as_secs(), 7);
    assert_eq!(config.monitor_interval().as_secs(), 9);
}

#[test]
fn overrides_never_break_a_default_configuration() {
    let mut env = EnvOverrides::none();
    env.disable_auth = Some("1".to_string());
    env.rate_limit_max = Some("7".to_string());
    env.bind_address = Some("127.0.0.1:9000".to_string());
    let c = Config::load(None, &env).unwrap();
    assert!(c.validate().is_ok());
    assert!(c.auth.disable_auth);
    assert_eq!(c.rate_limit.max_requests, 7);
    assert_eq!(c.server.bind_address, "127.0.0.1:9000");
}

#[test]
fn email_settings_come_from_the_environment() {
    let mut env = EnvOverrides::none();
    env.email_enabled = Some("true".to_string());
    env.smtp_host = Some("smtp.gmail.com".to_string());
    env.smtp_port = Some("587".to_string());
    env.smtp_username = Some("u".to_string());
    env.smtp_password = Some("p".to_string());
    env.email_from = Some("rmdadm@localhost".to_string());
    env.email_to = Some("admin@example.com,ops@example.com".to_string());
    let mut c = Config::default();
    assert!(c.monitoring.email.is_none());
    c.apply_env_overrides(&env);
    let e = c.monitoring.email.expect("email enabled");
    assert_eq!(e.smtp_server, "smtp.gmail.com");
    assert_eq!(e.smtp_port, 587);
    assert_eq!(e.smtp_username, "u");
    assert_eq!(e.smtp_password, "p");
    assert_eq!(e.from_address, "rmdadm@localhost");
    assert_eq!(e.to_addresses, vec!["admin@example.com".to_string(), "ops@example.com".to_string()]);
}

#[test]
fn email_port_that_does_not_parse_keeps_the_setting() {
    let mut env = EnvOverrides::none();
    env.email_enabled = Some("1".to_string());
    env.smtp_port = Some("70000".to_string());
    let mut c = Config::default();
    c.apply_env_overrides(&env);
    let e = c.monitoring.email.unwrap();
    assert_eq!(e.smtp_port, 587);
    assert_eq!(e.smtp_server, "");
    assert!(e.to_addresses.is_empty());
    let mut without = Config::default();
    let mut env2 = EnvOverrides::none();
    env2.smtp_host = Some("h".to_string());
    without.apply_env_overrides(&env2);
    assert!(without.monitoring.email.is_none());
}
