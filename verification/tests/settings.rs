use redirects::config::{parse_port, Config, ConfigError, Variables, DEFAULT_SSO_HOST};

fn complete() -> Variables {
    Variables {
        agus_dev_sso_host: Some("https://sso.example".to_string()),
        server_port: Some("8080".to_string()),
        postgres_url: Some("postgres://db".to_string()),
        kvs_url: Some("redis://kvs".to_string()),
        client_id: Some("client".to_string()),
        client_secret: Some("secret".to_string()),
        redirect_uri: Some("https://app.example/callback".to_string()),
    }
}

#[test]
fn a_port_is_a_decimal_number_of_sixteen_bits() {
    assert_eq!(parse_port("0"), Some(0));
    assert_eq!(parse_port("80"), Some(80));
    assert_eq!(parse_port("8080"), Some(8080));
    assert_eq!(parse_port("65535"), Some(65535));
    assert_eq!(parse_port("65536"), None);
    assert_eq!(parse_port("99999999999999999999999999"), None);
    assert_eq!(parse_port("+443"), Some(443));
    assert_eq!(parse_port("000080"), Some(80));
    assert_eq!(parse_port(""), None);
    assert_eq!(parse_port("+"), None);
    assert_eq!(parse_port("-1"), None);
    assert_eq!(parse_port("++1"), None);
    assert_eq!(parse_port(" 80"), None);
    assert_eq!(parse_port("80 "), None);
    assert_eq!(parse_port("8_0"), None);
    assert_eq!(parse_port("0x50"), None);
    assert_eq!(parse_port("८०"), None);
}

#[test]
fn a_port_is_read_as_the_standard_library_reads_it() {
    let samples = [
        "", "+", "-", "0", "00", "+0", "-0", "1", "9", "10", "65534", "65535", "65536", "65540",
        "70000", "655350", "0065535", "+65535", "+65536", "12a", "a12", "1 2", "１２", "4294967296",
        "18446744073709551616", "6553５",
    ];
    for text in samples {
        assert_eq!(parse_port(text), text.parse::<u16>().ok(), "{text:?}");
    }
    for n in 0u32..70_000 {
        let text = n.to_string();
        assert_eq!(parse_port(&text), text.parse::<u16>().ok());
    }
}

#[test]
fn complete_variables_give_the_settings() {
    let config = Config::from_variables(complete()).expect("nothing is missing");
    assert_eq!(config.agus_dev_sso_host, "https://sso.example");
    assert_eq!(config.port, 8080);
    assert_eq!(config.postgres_url, "postgres://db");
    assert_eq!(config.kvs_url, "redis://kvs");
    assert_eq!(config.client_id, "client");
    assert_eq!(config.client_secret, "secret");
    assert_eq!(config.redirect_uri, "https://app.example/callback");
}

#[test]
fn the_provider_has_a_default_address() {
    let variables = Variables { agus_dev_sso_host: None, ..complete() };
    let config = Config::from_variables(variables).expect("the address has a default");
    assert_eq!(config.agus_dev_sso_host, "https://sso.v2.agus.dev");
    assert_eq!(DEFAULT_SSO_HOST, "https://sso.v2.agus.dev");
}

#[test]
fn every_other_variable_must_be_set() {
    let cases = [
        (Variables { server_port: None, ..complete() }, ConfigError::ServerPortMissing),
        (Variables { postgres_url: None, ..complete() }, ConfigError::PostgresUrlMissing),
        (Variables { kvs_url: None, ..complete() }, ConfigError::KvsUrlMissing),
        (Variables { client_id: None, ..complete() }, ConfigError::ClientIdMissing),
        (Variables { client_secret: None, ..complete() }, ConfigError::ClientSecretMissing),
        (Variables { redirect_uri: None, ..complete() }, ConfigError::RedirectUriMissing),
    ];
    for (variables, expected) in cases {
        assert_eq!(Config::from_variables(variables).err(), Some(expected));
    }
}

#[test]
fn the_port_must_be_a_number() {
    let variables = Variables { server_port: Some("http".to_string()), ..complete() };
    assert_eq!(Config::from_variables(variables).err(), Some(ConfigError::ServerPortNotANumber));
    let variables = Variables { server_port: Some("65536".to_string()), ..complete() };
    assert_eq!(Config::from_variables(variables).err(), Some(ConfigError::ServerPortNotANumber));
}

#[test]
fn the_first_fault_is_named() {
    let variables =
        Variables { server_port: Some("x".to_string()), postgres_url: None, ..complete() };
    assert_eq!(Config::from_variables(variables).err(), Some(ConfigError::ServerPortNotANumber));
    let variables = Variables { kvs_url: None, redirect_uri: None, ..complete() };
    assert_eq!(Config::from_variables(variables).err(), Some(ConfigError::KvsUrlMissing));
}

#[test]
fn faults_are_said_in_words() {
    assert_eq!(ConfigError::ServerPortMissing.message(), "SERVER_PORT must be set");
    assert_eq!(ConfigError::ServerPortNotANumber.message(), "SERVER_PORT must be a number");
    assert_eq!(ConfigError::PostgresUrlMissing.message(), "POSTGRES_URL must be set");
    assert_eq!(ConfigError::KvsUrlMissing.message(), "KVS_URL must be set");
    assert_eq!(ConfigError::ClientIdMissing.message(), "CLIENT_ID must be set");
    assert_eq!(ConfigError::ClientSecretMissing.message(), "CLIENT_SECRET must be set");
    assert_eq!(ConfigError::RedirectUriMissing.message(), "REDIRECT_URI must be set");
}
