//! The settings of the server, put together from the values that the
//! environment holds.

use vstd::prelude::*;
use vstd::string::*;
use crate::record::text_of;

verus! {

/// The address of the identity provider where the environment names none.
pub const DEFAULT_SSO_HOST: &'static str = "https://sso.v2.agus.dev";

/// A decimal digit.
pub open spec fn is_digit(c: char) -> bool {
    '0' <= c && c <= '9'
}

/// The number that a text of decimal digits writes.
pub open spec fn decimal(digits: Seq<char>) -> nat
    decreases digits.len(),
{
    if digits.len() == 0 {
        0
    } else {
        decimal(digits.drop_last()) * 10 + (digits.last() as nat - '0' as nat) as nat
    }
}

/// The digits of a number written with or without a leading `+`.
pub open spec fn digits_of(text: Seq<char>) -> Seq<char> {
    if text.len() > 0 && text[0] == '+' {
        text.drop_first()
    } else {
        text
    }
}

/// The port that a text writes: decimal digits, at least one, after an
/// optional `+`, and no more than 65535.
pub open spec fn port_of(text: Seq<char>) -> Option<u16> {
    let digits = digits_of(text);
    if digits.len() > 0 && (forall|i: int| 0 <= i < digits.len() ==> is_digit(#[trigger] digits[i]))
        && decimal(digits) <= u16::MAX {
        Some(decimal(digits) as u16)
    } else {
        None
    }
}

/// Reads a port from a text.
pub fn parse_port(text: &str) -> (r: Option<u16>)
    ensures
        r == port_of(text@),
{
    let n: usize = text.unicode_len();
    let start: usize = if n > 0 && text.get_char(0) == '+' {
        1
    } else {
        0
    };
    let ghost digits = digits_of(text@);
    assert(digits =~= text@.subrange(start as int, n as int));
    if start == n {
        return None;
    }
    let mut value: u32 = 0;
    let mut i: usize = start;
    assert(digits.take(0) =~= Seq::<char>::empty());
    while i < n
        invariant
            start <= i <= n,
            n == text@.len(),
            digits == text@.subrange(start as int, n as int),
            digits == digits_of(text@),
            forall|j: int| 0 <= j < i - start ==> is_digit(#[trigger] digits[j]),
            value <= u16::MAX ==> value == decimal(digits.take(i - start)),
            value > u16::MAX ==> decimal(digits.take(i - start)) > u16::MAX,
            value <= 10 * u16::MAX + 9,
        decreases n - i,
    {
        let c: char = text.get_char(i);
        assert(digits[i - start] == c);
        if !(c >= '0' && c <= '9') {
            assert(!is_digit(digits[i - start]));
            return None;
        }
        proof {
            assert(digits.take(i - start + 1).drop_last() =~= digits.take(i - start));
            assert(digits.take(i - start + 1).last() == c);
        }
        if value <= 65535 {
            value = value * 10 + (c as u32 - '0' as u32);
        }
        i += 1;
    }
    proof {
        assert(digits.take(n - start) =~= digits);
    }
    if value <= 65535 {
        Some(value as u16)
    } else {
        None
    }
}

/// The mathematical value of a [`Config`].
pub ghost struct ConfigView {
    pub agus_dev_sso_host: Seq<char>,
    pub port: u16,
    pub postgres_url: Seq<char>,
    pub kvs_url: Seq<char>,
    pub client_id: Seq<char>,
    pub client_secret: Seq<char>,
    pub redirect_uri: Seq<char>,
}

/// The settings of the server.
#[derive(Debug)]
pub struct Config {
    pub agus_dev_sso_host: String,
    pub port: u16,
    pub postgres_url: String,
    pub kvs_url: String,
    pub client_id: String,
    pub client_secret: String,
    pub redirect_uri: String,
}

impl View for Config {
    type V = ConfigView;

    open spec fn view(&self) -> ConfigView {
        ConfigView {
            agus_dev_sso_host: self.agus_dev_sso_host@,
            port: self.port,
            postgres_url: self.postgres_url@,
            kvs_url: self.kvs_url@,
            client_id: self.client_id@,
            client_secret: self.client_secret@,
            redirect_uri: self.redirect_uri@,
        }
    }
}

/// The mathematical value of a [`Variables`].
pub ghost struct VariablesView {
    pub agus_dev_sso_host: Option<Seq<char>>,
    pub server_port: Option<Seq<char>>,
    pub postgres_url: Option<Seq<char>>,
    pub kvs_url: Option<Seq<char>>,
    pub client_id: Option<Seq<char>>,
    pub client_secret: Option<Seq<char>>,
    pub redirect_uri: Option<Seq<char>>,
}

/// What the environment holds under the names that the server reads.
#[derive(Debug)]
pub struct Variables {
    pub agus_dev_sso_host: Option<String>,
    pub server_port: Option<String>,
    pub postgres_url: Option<String>,
    pub kvs_url: Option<String>,
    pub client_id: Option<String>,
    pub client_secret: Option<String>,
    pub redirect_uri: Option<String>,
}

impl View for Variables {
    type V = VariablesView;

    open spec fn view(&self) -> VariablesView {
        VariablesView {
            agus_dev_sso_host: text_of(self.agus_dev_sso_host),
            server_port: text_of(self.server_port),
            postgres_url: text_of(self.postgres_url),
            kvs_url: text_of(self.kvs_url),
            client_id: text_of(self.client_id),
            client_secret: text_of(self.client_secret),
            redirect_uri: text_of(self.redirect_uri),
        }
    }
}

/// Why the settings are not complete.
#[derive(Debug, Clone, Copy, PartialEq, Eq, Structural)]
pub enum ConfigError {
    ServerPortMissing,
    ServerPortNotANumber,
    PostgresUrlMissing,
    KvsUrlMissing,
    ClientIdMissing,
    ClientSecretMissing,
    RedirectUriMissing,
}

/// What is said of incomplete settings.
pub open spec fn config_error_text(error: ConfigError) -> Seq<char> {
    match error {
        ConfigError::ServerPortMissing => "SERVER_PORT must be set"@,
        ConfigError::ServerPortNotANumber => "SERVER_PORT must be a number"@,
        ConfigError::PostgresUrlMissing => "POSTGRES_URL must be set"@,
        ConfigError::KvsUrlMissing => "KVS_URL must be set"@,
        ConfigError::ClientIdMissing => "CLIENT_ID must be set"@,
        ConfigError::ClientSecretMissing => "CLIENT_SECRET must be set"@,
        ConfigError::RedirectUriMissing => "REDIRECT_URI must be set"@,
    }
}

impl ConfigError {
    /// What is said of the error.
    pub fn message(&self) -> (r: &'static str)
        ensures
            r@ == config_error_text(*self),
    {
        match self {
            ConfigError::ServerPortMissing => "SERVER_PORT must be set",
            ConfigError::ServerPortNotANumber => "SERVER_PORT must be a number",
            ConfigError::PostgresUrlMissing => "POSTGRES_URL must be set",
            ConfigError::KvsUrlMissing => "KVS_URL must be set",
            ConfigError::ClientIdMissing => "CLIENT_ID must be set",
            ConfigError::ClientSecretMissing => "CLIENT_SECRET must be set",
            ConfigError::RedirectUriMissing => "REDIRECT_URI must be set",
        }
    }
}

/// The settings that the variables give. The provider's address has a
/// default; every other variable must be there, and the port must be a
/// number. Of several faults the first in the order of the fields is named.
pub open spec fn configured(variables: VariablesView) -> Result<ConfigView, ConfigError> {
    if variables.server_port is None {
        Err(ConfigError::ServerPortMissing)
    } else if port_of(variables.server_port->0) is None {
        Err(ConfigError::ServerPortNotANumber)
    } else if variables.postgres_url is None {
        Err(ConfigError::PostgresUrlMissing)
    } else if variables.kvs_url is None {
        Err(ConfigError::KvsUrlMissing)
    } else if variables.client_id is None {
        Err(ConfigError::ClientIdMissing)
    } else if variables.client_secret is None {
        Err(ConfigError::ClientSecretMissing)
    } else if variables.redirect_uri is None {
        Err(ConfigError::RedirectUriMissing)
    } else {
        Ok(
            ConfigView {
                agus_dev_sso_host: match variables.agus_dev_sso_host {
                    Some(host) => host,
                    None => DEFAULT_SSO_HOST@,
                },
                port: port_of(variables.server_port->0)->0,
                postgres_url: variables.postgres_url->0,
                kvs_url: variables.kvs_url->0,
                client_id: variables.client_id->0,
                client_secret: variables.client_secret->0,
                redirect_uri: variables.redirect_uri->0,
            },
        )
    }
}

/// The value of settings or of why there are none.
pub open spec fn settings_of(r: Result<Config, ConfigError>) -> Result<ConfigView, ConfigError> {
    match r {
        Ok(config) => Ok(config@),
        Err(e) => Err(e),
    }
}

impl Config {
    /// The settings that the variables give.
    pub fn from_variables(variables: Variables) -> (r: Result<Config, ConfigError>)
        ensures
            settings_of(r) == configured(variables@),
    {
        let agus_dev_sso_host = match variables.agus_dev_sso_host {
            Some(host) => host,
            None => DEFAULT_SSO_HOST.to_owned(),
        };
        let port: u16 = match variables.server_port {
            None => {
                return Err(ConfigError::ServerPortMissing);
            },
            Some(text) => match parse_port(text.as_str()) {
                None => {
                    return Err(ConfigError::ServerPortNotANumber);
                },
                Some(port) => port,
            },
        };
        let postgres_url = match variables.postgres_url {
            Some(text) => text,
            None => {
                return Err(ConfigError::PostgresUrlMissing);
            },
        };
        let kvs_url = match variables.kvs_url {
            Some(text) => text,
            None => {
                return Err(ConfigError::KvsUrlMissing);
            },
        };
        let client_id = match variables.client_id {
            Some(text) => text,
            None => {
                return Err(ConfigError::ClientIdMissing);
            },
        };
        let client_secret = match variables.client_secret {
            Some(text) => text,
            None => {
                return Err(ConfigError::ClientSecretMissing);
            },
        };
        let redirect_uri = match variables.redirect_uri {
            Some(text) => text,
            None => {
                return Err(ConfigError::RedirectUriMissing);
            },
        };
        Ok(
            Config {
                agus_dev_sso_host,
                port,
                postgres_url,
                kvs_url,
                client_id,
                client_secret,
                redirect_uri,
            },
        )
    }
}

} // verus!
