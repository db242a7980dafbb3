//! Configuration: the monitored services, the defaults they fall back on,
//! and the rules a configuration must meet before it is used.

use vstd::prelude::*;
use vstd::string::*;

use crate::check::BodyExpectation;

verus! {

/// Where the HTTP server listens and what it serves.
#[derive(Debug, Clone)]
pub struct ServerConfig {
    pub port: u16,
    pub static_dir: String,
}

/// Check settings that services fall back on.
#[derive(Debug, Clone)]
pub struct DefaultsConfig {
    /// Seconds between two checks of a service.
    pub check_interval: u64,
    /// Seconds a check may take.
    pub timeout: u64,
}

/// Where check results are stored.
#[derive(Debug, Clone)]
pub struct DatabaseConfig {
    pub url: String,
}

/// One monitored service.
#[derive(Debug, Clone)]
pub struct ServiceConfig {
    pub id: String,
    pub name: String,
    pub url: String,
    pub expected_status: u16,
    pub check_interval: Option<u64>,
    pub timeout: Option<u64>,
    pub expected_body: Option<String>,
}

/// The whole configuration.
#[derive(Debug, Clone)]
pub struct Config {
    pub server: ServerConfig,
    pub defaults: DefaultsConfig,
    pub database: DatabaseConfig,
    pub services: Vec<ServiceConfig>,
}

/// The Telegram bot that down and recovery notices go to.
#[derive(Debug, Clone)]
pub struct TelegramConfig {
    pub bot_token: String,
    pub chat_ids: Vec<String>,
}

/// Why a configuration cannot be used.
#[derive(Debug)]
pub enum ConfigError {
    /// The file could not be read (the reader's message).
    Io(String),
    /// The file is not valid TOML for a configuration (the parser's message).
    Parse(String),
    /// Two services share this id.
    DuplicateServiceId(String),
    /// The service with this id has this URL, which does not parse as an absolute URL.
    InvalidUrl(String, String),
}

/// How a configuration error reads.
pub open spec fn config_error_text(e: ConfigError) -> Seq<char> {
    match e {
        ConfigError::Io(m) => "Failed to read config file: "@ + m@,
        ConfigError::Parse(m) => "Failed to parse TOML: "@ + m@,
        ConfigError::DuplicateServiceId(id) => "Duplicate service ID: "@ + id@,
        ConfigError::InvalidUrl(id, url) => "Invalid URL for service '"@ + id@ + "': "@ + url@,
    }
}

impl ConfigError {
    /// The error as a sentence for the operator.
    pub fn message(&self) -> (r: String)
        ensures
            r@ == config_error_text(*self),
    {
        let mut r = String::new();
        match self {
            ConfigError::Io(m) => {
                r.append("Failed to read config file: ");
                r.append(m.as_str());
            },
            ConfigError::Parse(m) => {
                r.append("Failed to parse TOML: ");
                r.append(m.as_str());
            },
            ConfigError::DuplicateServiceId(id) => {
                r.append("Duplicate service ID: ");
                r.append(id.as_str());
            },
            ConfigError::InvalidUrl(id, url) => {
                r.append("Invalid URL for service '");
                r.append(id.as_str());
                r.append("': ");
                r.append(url.as_str());
            },
        }
        r
    }
}

// ------------------------------------------------------------------------
// Defaults
// ------------------------------------------------------------------------

/// The port the server listens on unless configured.
pub fn default_port() -> (r: u16)
    ensures
        r == 8080,
{
    8080
}

/// The directory of the built frontend unless configured.
pub fn default_static_dir() -> (r: String)
    ensures
        r@ == "./frontend/dist"@,
{
    String::from_str("./frontend/dist")
}

/// Seconds between checks unless configured.
pub fn default_check_interval() -> (r: u64)
    ensures
        r == 60,
{
    60
}

/// Seconds a check may take unless configured.
pub fn default_timeout() -> (r: u64)
    ensures
        r == 10,
{
    10
}

/// The database URL unless configured.
pub fn default_db_url() -> (r: String)
    ensures
        r@ == "sqlite://data/tickers.db"@,
{
    String::from_str("sqlite://data/tickers.db")
}

/// The status a healthy service answers with unless configured.
pub fn default_expected_status() -> (r: u16)
    ensures
        r == 200,
{
    200
}

impl Default for ServerConfig {
    fn default() -> (r: Self)
        ensures
            r.port == 8080,
            r.static_dir@ == "./frontend/dist"@,
    {
        ServerConfig { port: default_port(), static_dir: default_static_dir() }
    }
}

impl Default for DefaultsConfig {
    fn default() -> (r: Self)
        ensures
            r.check_interval == 60,
            r.timeout == 10,
    {
        DefaultsConfig { check_interval: default_check_interval(), timeout: default_timeout() }
    }
}

impl Default for DatabaseConfig {
    fn default() -> (r: Self)
        ensures
            r.url@ == "sqlite://data/tickers.db"@,
    {
        DatabaseConfig { url: default_db_url() }
    }
}

/// The configuration used when there is no configuration file: the default
/// server, defaults and database, and no services.
pub open spec fn is_default_config(c: Config) -> bool {
    &&& c.server.port == 8080
    &&& c.server.static_dir@ == "./frontend/dist"@
    &&& c.defaults.check_interval == 60
    &&& c.defaults.timeout == 10
    &&& c.database.url@ == "sqlite://data/tickers.db"@
    &&& c.services@.len() == 0
}

// ------------------------------------------------------------------------
// Per-service settings
// ------------------------------------------------------------------------

impl ServiceConfig {
    /// The service's check interval: its own, else the default.
    pub fn effective_check_interval(&self, defaults: &DefaultsConfig) -> (r: u64)
        ensures
            r == match self.check_interval {
                Some(v) => v,
                None => defaults.check_interval,
            },
    {
        match self.check_interval {
            Some(v) => v,
            None => defaults.check_interval,
        }
    }

    /// The service's check timeout: its own, else the default.
    pub fn effective_timeout(&self, defaults: &DefaultsConfig) -> (r: u64)
        ensures
            r == match self.timeout {
                Some(v) => v,
                None => defaults.timeout,
            },
    {
        match self.timeout {
            Some(v) => v,
            None => defaults.timeout,
        }
    }
}

impl ServiceConfig {
    /// What the service asks of a response body: its configured text, if any,
    /// must appear in the body. The configured text always makes a valid
    /// expectation, so the result is never `Err`.
    pub fn parse_expected_body(&self) -> (r: Result<Option<BodyExpectation>, String>)
        ensures
            r == Ok::<Option<BodyExpectation>, String>(
                match self.expected_body {
                    Some(t) => Some(BodyExpectation::Contains(t)),
                    None => None,
                },
            ),
    {
        match &self.expected_body {
            Some(t) => Ok(Some(BodyExpectation::Contains(t.clone()))),
            None => Ok(None),
        }
    }
}

impl TelegramConfig {
    /// Notices can be sent: there is a bot token and at least one chat.
    pub fn is_enabled(&self) -> (r: bool)
        ensures
            r == (self.bot_token@.len() > 0 && self.chat_ids@.len() > 0),
    {
        self.bot_token.unicode_len() > 0 && self.chat_ids.len() > 0
    }
}

// ------------------------------------------------------------------------
// Validation
// ------------------------------------------------------------------------

/// Whether the text parses as an absolute URL (what `url::Url::parse` accepts).
pub uninterp spec fn is_absolute_url(s: Seq<char>) -> bool;

/// `url::Url::parse`: whether `s` parses as an absolute URL. Which strings do
/// is only named here, as a function of `s`.
#[verifier::external_body]
fn url_parses(s: &str) -> (r: bool)
    ensures
        r == is_absolute_url(s@),
{
    url::Url::parse(s).is_ok()
}

/// Some earlier service has the same id as service `i`.
pub open spec fn duplicate_at(services: Seq<ServiceConfig>, i: int) -> bool {
    exists|k: int| 0 <= k < i && #[trigger] services[k].id@ == services[i].id@
}

/// Service `i` passes: its id is new and its URL is absolute.
pub open spec fn service_ok_at(services: Seq<ServiceConfig>, i: int) -> bool {
    !duplicate_at(services, i) && is_absolute_url(services[i].url@)
}

/// The error reported for service `i` when it does not pass.
pub open spec fn error_at(services: Seq<ServiceConfig>, i: int) -> ConfigError {
    if duplicate_at(services, i) {
        ConfigError::DuplicateServiceId(services[i].id)
    } else {
        ConfigError::InvalidUrl(services[i].id, services[i].url)
    }
}

/// Checking the services from `i` on: the error of the first that does not pass.
pub open spec fn validation_from(services: Seq<ServiceConfig>, i: int) -> Result<(), ConfigError>
    decreases services.len() - i,
{
    if i < 0 || i >= services.len() {
        Ok(())
    } else if !service_ok_at(services, i) {
        Err(error_at(services, i))
    } else {
        validation_from(services, i + 1)
    }
}

/// Checking all services, in order.
pub open spec fn validation(services: Seq<ServiceConfig>) -> Result<(), ConfigError> {
    validation_from(services, 0)
}

impl Config {
    /// Checks the services in order: the first whose id was already used gives
    /// `DuplicateServiceId`, the first whose URL is not absolute gives
    /// `InvalidUrl`; otherwise the configuration is valid.
    pub fn validate(&self) -> (r: Result<(), ConfigError>)
        ensures
            r == validation(self.services@),
    {
        let services = &self.services;
        let n = services.len();
        let mut i: usize = 0;
        while i < n
            invariant
                i <= n == services@.len(),
                services@ == self.services@,
                validation(services@) == validation_from(services@, i as int),
            decreases n - i,
        {
            let mut k: usize = 0;
            while k < i
                invariant
                    k <= i < n == services@.len(),
                    services@ == self.services@,
                    validation(services@) == validation_from(services@, i as int),
                    forall|j: int| 0 <= j < k ==> services@[j].id@ != services@[i as int].id@,
                decreases i - k,
            {
                if services[k].id == services[i].id {
                    assert(duplicate_at(services@, i as int));
                    assert(validation_from(services@, i as int) == Err::<(), ConfigError>(
                        error_at(services@, i as int),
                    ));
                    return Err(ConfigError::DuplicateServiceId(services[i].id.clone()));
                }
                k += 1;
            }
            assert(!duplicate_at(services@, i as int));
            if !url_parses(services[i].url.as_str()) {
                assert(!service_ok_at(services@, i as int));
                assert(validation_from(services@, i as int) == Err::<(), ConfigError>(
                    error_at(services@, i as int),
                ));
                return Err(
                    ConfigError::InvalidUrl(services[i].id.clone(), services[i].url.clone()),
                );
            }
            i += 1;
        }
        Ok(())
    }

    /// The configuration to run with: when a file was found, its parsed
    /// content if it passes validation (else the validation error); when there
    /// is no file, the defaults with no services.
    pub fn load_or_default(found: Option<Config>) -> (r: Result<Config, ConfigError>)
        ensures
            match found {
                None => r matches Ok(c) && is_default_config(c),
                Some(c) => match validation(c.services@) {
                    Ok(()) => r == Ok::<Config, ConfigError>(c),
                    Err(e) => r == Err::<Config, ConfigError>(e),
                },
            },
            r matches Ok(c) ==> validation(c.services@) is Ok,
    {
        match found {
            None => Ok(
                Config {
                    server: ServerConfig::default(),
                    defaults: DefaultsConfig::default(),
                    database: DatabaseConfig::default(),
                    services: Vec::new(),
                },
            ),
            Some(c) => match c.validate() {
                Ok(()) => Ok(c),
                Err(e) => Err(e),
            },
        }
    }
}

/// A valid configuration has pairwise distinct service ids, and every
/// service URL parses as an absolute URL.
pub proof fn lemma_valid_config_distinct_ids(services: Seq<ServiceConfig>)
    requires
        validation(services) is Ok,
    ensures
        forall|i: int, j: int|
            0 <= i < j < services.len() ==> services[i].id@ != services[j].id@,
        forall|i: int| 0 <= i < services.len() ==> is_absolute_url(#[trigger] services[i].url@),
{
    lemma_validation_from_ok(services, 0);
    assert forall|i: int, j: int| 0 <= i < j < services.len() implies services[i].id@
        != services[j].id@ by {
        assert(service_ok_at(services, j));
        assert(!duplicate_at(services, j));
    }
    assert forall|i: int| 0 <= i < services.len() implies is_absolute_url(
        #[trigger] services[i].url@,
    ) by {
        assert(service_ok_at(services, i));
    }
}

/// Checking from `i` succeeds exactly when every service from `i` on passes.
pub proof fn lemma_validation_from_ok(services: Seq<ServiceConfig>, i: int)
    requires
        0 <= i,
    ensures
        validation_from(services, i) is Ok <==> forall|j: int|
            i <= j < services.len() ==> service_ok_at(services, j),
    decreases services.len() - i,
{
    if i < services.len() {
        lemma_validation_from_ok(services, i + 1);
    }
}

} // verus!
