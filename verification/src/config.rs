//! Configuration of the service: defaults, overrides from the environment,
//! and the checks that a configuration must pass.

use vstd::prelude::*;
use std::time::Duration;
use crate::text::{to_chars, parse_u32, parse_u64, parse_unsigned, parse_unsigned_chars, split_on, split_at_char, strings_view};

verus! {

/// The whole configuration.
#[derive(Debug, Clone)]
pub struct Config {
    pub server: ServerConfig,
    pub auth: AuthConfig,
    pub rate_limit: RateLimitConfig,
    pub monitoring: MonitoringConfig,
    pub logging: LoggingConfig,
}

/// Where and how the API server listens.
#[derive(Debug, Clone)]
pub struct ServerConfig {
    pub bind_address: String,
    pub enable_tls: bool,
    pub tls_cert: Option<String>,
    pub tls_key: Option<String>,
}

/// How clients are authenticated.
#[derive(Debug, Clone)]
pub struct AuthConfig {
    pub disable_auth: bool,
    pub jwt_secret: String,
    pub token_expiry_hours: u64,
    pub api_key: Option<String>,
    pub admin_user: String,
    pub admin_password: String,
}

/// How many requests a client may make in a window of time.
#[derive(Debug, Clone)]
pub struct RateLimitConfig {
    pub enabled: bool,
    pub max_requests: u32,
    pub window_seconds: u64,
}

/// The background monitoring of arrays.
#[derive(Debug, Clone)]
pub struct MonitoringConfig {
    pub enabled: bool,
    pub interval_seconds: u64,
    pub webhook_url: Option<String>,
    pub email: Option<EmailConfig>,
}

/// Where alert mails go.
#[derive(Debug, Clone)]
pub struct EmailConfig {
    pub smtp_server: String,
    pub smtp_port: u16,
    pub smtp_username: String,
    pub smtp_password: String,
    pub from_address: String,
    pub to_addresses: Vec<String>,
}

/// What is logged, and where.
#[derive(Debug, Clone)]
pub struct LoggingConfig {
    pub level: String,
    pub log_dir: Option<String>,
    pub json_format: bool,
}

/// The default address the server binds to.
pub fn default_bind_address() -> (r: String)
    ensures
        r@ == "0.0.0.0:8080"@,
{
    String::from_str("0.0.0.0:8080")
}

/// The default secret that signs tokens.
pub fn default_jwt_secret() -> (r: String)
    ensures
        r@ == "change-me-in-production"@,
{
    String::from_str("change-me-in-production")
}

/// The default lifetime of a token, in hours.
pub fn default_token_expiry() -> (r: u64)
    ensures
        r == 24,
{
    24
}

/// The default name of the administrator.
pub fn default_admin_user() -> (r: String)
    ensures
        r@ == "admin"@,
{
    String::from_str("admin")
}

/// The default password of the administrator.
pub fn default_admin_password() -> (r: String)
    ensures
        r@ == "changeme"@,
{
    String::from_str("changeme")
}

/// The default number of requests in a window.
pub fn default_max_requests() -> (r: u32)
    ensures
        r == 100,
{
    100
}

/// The default length of a window, in seconds.
pub fn default_window_seconds() -> (r: u64)
    ensures
        r == 60,
{
    60
}

/// The default time between two checks of the arrays, in seconds.
pub fn default_monitor_interval() -> (r: u64)
    ensures
        r == 60,
{
    60
}

/// The default port of the mail server.
pub fn default_smtp_port() -> (r: u16)
    ensures
        r == 587,
{
    587
}

/// The default log level.
pub fn default_log_level() -> (r: String)
    ensures
        r@ == "info"@,
{
    String::from_str("info")
}

impl Default for ServerConfig {
    /// Listen on every address, port 8080, without TLS.
    fn default() -> (c: Self)
        ensures
            c.bind_address@ == "0.0.0.0:8080"@,
            !c.enable_tls,
            c.tls_cert is None,
            c.tls_key is None,
    {
        ServerConfig { bind_address: default_bind_address(), enable_tls: false, tls_cert: None, tls_key: None }
    }
}

impl Default for AuthConfig {
    /// Authentication on, with the default secret, administrator and password.
    fn default() -> (c: Self)
        ensures
            !c.disable_auth,
            c.jwt_secret@ == "change-me-in-production"@,
            c.token_expiry_hours == 24,
            c.api_key is None,
            c.admin_user@ == "admin"@,
            c.admin_password@ == "changeme"@,
    {
        AuthConfig {
            disable_auth: false,
            jwt_secret: default_jwt_secret(),
            token_expiry_hours: default_token_expiry(),
            api_key: None,
            admin_user: default_admin_user(),
            admin_password: default_admin_password(),
        }
    }
}

impl Default for RateLimitConfig {
    /// On, 100 requests a minute.
    fn default() -> (c: Self)
        ensures
            c.enabled,
            c.max_requests == 100,
            c.window_seconds == 60,
    {
        RateLimitConfig { enabled: true, max_requests: default_max_requests(), window_seconds: default_window_seconds() }
    }
}

impl Default for MonitoringConfig {
    /// On, every minute, with no alert channel.
    fn default() -> (c: Self)
        ensures
            c.enabled,
            c.interval_seconds == 60,
            c.webhook_url is None,
            c.email is None,
    {
        MonitoringConfig { enabled: true, interval_seconds: default_monitor_interval(), webhook_url: None, email: None }
    }
}

impl Default for LoggingConfig {
    /// Level `info`, into `/var/log/rmdadm`, as text.
    fn default() -> (c: Self)
        ensures
            c.level@ == "info"@,
            c.log_dir matches Some(d) && d@ == "/var/log/rmdadm"@,
            !c.json_format,
    {
        LoggingConfig { level: default_log_level(), log_dir: Some(String::from_str("/var/log/rmdadm")), json_format: false }
    }
}

/// Whether `c` is the default configuration.
pub open spec fn is_default_config(c: Config) -> bool {
    &&& c.server.bind_address@ == "0.0.0.0:8080"@
    &&& !c.server.enable_tls
    &&& c.server.tls_cert is None
    &&& c.server.tls_key is None
    &&& !c.auth.disable_auth
    &&& c.auth.jwt_secret@ == "change-me-in-production"@
    &&& c.auth.token_expiry_hours == 24
    &&& c.auth.api_key is None
    &&& c.auth.admin_user@ == "admin"@
    &&& c.auth.admin_password@ == "changeme"@
    &&& c.rate_limit.enabled
    &&& c.rate_limit.max_requests == 100
    &&& c.rate_limit.window_seconds == 60
    &&& c.monitoring.enabled
    &&& c.monitoring.interval_seconds == 60
    &&& c.monitoring.webhook_url is None
    &&& c.monitoring.email is None
    &&& c.logging.level@ == "info"@
    &&& (c.logging.log_dir matches Some(d) && d@ == "/var/log/rmdadm"@)
    &&& !c.logging.json_format
}

impl Default for Config {
    /// Every section at its default.
    fn default() -> (c: Self)
        ensures
            is_default_config(c),
    {
        Config {
            server: ServerConfig::default(),
            auth: AuthConfig::default(),
            rate_limit: RateLimitConfig::default(),
            monitoring: MonitoringConfig::default(),
            logging: LoggingConfig::default(),
        }
    }
}

/// The environment variables that override the configuration, each as it
/// was read (`None` when it is not set).
#[derive(Debug, Clone)]
pub struct EnvOverrides {
    /// `RMDADM_BIND_ADDRESS`
    pub bind_address: Option<String>,
    /// `RMDADM_DISABLE_AUTH`
    pub disable_auth: Option<String>,
    /// `RMDADM_JWT_SECRET`
    pub jwt_secret: Option<String>,
    /// `RMDADM_API_KEY`
    pub api_key: Option<String>,
    /// `RMDADM_ADMIN_USER`
    pub admin_user: Option<String>,
    /// `RMDADM_ADMIN_PASSWORD`
    pub admin_password: Option<String>,
    /// `RMDADM_DISABLE_RATE_LIMIT`
    pub disable_rate_limit: Option<String>,
    /// `RMDADM_RATE_LIMIT_MAX`
    pub rate_limit_max: Option<String>,
    /// `RMDADM_RATE_LIMIT_WINDOW`
    pub rate_limit_window: Option<String>,
    /// `RMDADM_WEBHOOK_URL`
    pub webhook_url: Option<String>,
    /// `RMDADM_MONITOR_INTERVAL`
    pub monitor_interval: Option<String>,
    /// `RUST_LOG`
    pub rust_log: Option<String>,
    /// `RMDADM_EMAIL_ENABLED`
    pub email_enabled: Option<String>,
    /// `RMDADM_SMTP_HOST`
    pub smtp_host: Option<String>,
    /// `RMDADM_SMTP_PORT`
    pub smtp_port: Option<String>,
    /// `RMDADM_SMTP_USERNAME`
    pub smtp_username: Option<String>,
    /// `RMDADM_SMTP_PASSWORD`
    pub smtp_password: Option<String>,
    /// `RMDADM_EMAIL_FROM`
    pub email_from: Option<String>,
    /// `RMDADM_EMAIL_TO`, recipients separated by commas
    pub email_to: Option<String>,
}

impl EnvOverrides {
    /// No variable set.
    pub fn none() -> (e: EnvOverrides)
        ensures
            e.bind_address is None && e.disable_auth is None && e.jwt_secret is None && e.api_key is None
                && e.admin_user is None && e.admin_password is None && e.disable_rate_limit is None
                && e.rate_limit_max is None && e.rate_limit_window is None && e.webhook_url is None
                && e.monitor_interval is None && e.rust_log is None && e.email_enabled is None
                && e.smtp_host is None && e.smtp_port is None && e.smtp_username is None
                && e.smtp_password is None && e.email_from is None && e.email_to is None,
    {
        EnvOverrides {
            bind_address: None,
            disable_auth: None,
            jwt_secret: None,
            api_key: None,
            admin_user: None,
            admin_password: None,
            disable_rate_limit: None,
            rate_limit_max: None,
            rate_limit_window: None,
            webhook_url: None,
            monitor_interval: None,
            rust_log: None,
            email_enabled: None,
            smtp_host: None,
            smtp_port: None,
            smtp_username: None,
            smtp_password: None,
            email_from: None,
            email_to: None,
        }
    }
}

/// A text variable overriding a text setting.
pub open spec fn text_or(v: Option<String>, old: Seq<char>) -> Seq<char> {
    match v {
        Some(s) => s@,
        None => old,
    }
}

/// A number variable overriding a number setting, when it parses.
pub open spec fn number_or(v: Option<String>, max: nat, old: nat) -> nat {
    match v {
        Some(s) => match parse_unsigned(s@, max) {
            Some(n) => n,
            None => old,
        },
        None => old,
    }
}

/// The view of an optional string.
pub open spec fn opt_text(o: Option<String>) -> Option<Seq<char>> {
    match o {
        Some(s) => Some(s@),
        None => None,
    }
}

/// The email settings that the environment's variables start from: those of
/// the configuration, or, where it has none, no server, user, password,
/// sender or recipient, and port 587.
pub open spec fn email_base(old: Option<EmailConfig>) -> (Seq<char>, nat, Seq<char>, Seq<char>, Seq<char>, Seq<Seq<char>>) {
    match old {
        Some(o) => (o.smtp_server@, o.smtp_port as nat, o.smtp_username@, o.smtp_password@, o.from_address@,
            strings_view(o.to_addresses@)),
        None => (Seq::empty(), 587, Seq::empty(), Seq::empty(), Seq::empty(), Seq::empty()),
    }
}

/// The email settings once enabled from the environment: each variable that
/// is set replaces its setting (the port only when it parses as a `u16`, the
/// recipients split at commas); every other setting is kept.
pub open spec fn email_overridden(old: Option<EmailConfig>, env: EnvOverrides, e: EmailConfig) -> bool {
    let b = email_base(old);
    &&& e.smtp_server@ == text_or(env.smtp_host, b.0)
    &&& e.smtp_port == number_or(env.smtp_port, u16::MAX as nat, b.1)
    &&& e.smtp_username@ == text_or(env.smtp_username, b.2)
    &&& e.smtp_password@ == text_or(env.smtp_password, b.3)
    &&& e.from_address@ == text_or(env.email_from, b.4)
    &&& strings_view(e.to_addresses@) == match env.email_to {
        Some(t) => split_at_char(t@, ','),
        None => b.5,
    }
}

/// What the environment makes of a configuration: each variable that is set
/// replaces its setting (a switch variable turns its switch, whatever its
/// value; a number replaces its setting only when it parses); everything else
/// is kept.
pub open spec fn overridden(old: Config, env: EnvOverrides, new: Config) -> bool {
    &&& new.server.bind_address@ == text_or(env.bind_address, old.server.bind_address@)
    &&& new.server.enable_tls == old.server.enable_tls
    &&& opt_text(new.server.tls_cert) == opt_text(old.server.tls_cert)
    &&& opt_text(new.server.tls_key) == opt_text(old.server.tls_key)
    &&& new.auth.disable_auth == (old.auth.disable_auth || env.disable_auth is Some)
    &&& new.auth.jwt_secret@ == text_or(env.jwt_secret, old.auth.jwt_secret@)
    &&& new.auth.token_expiry_hours == old.auth.token_expiry_hours
    &&& opt_text(new.auth.api_key) == match env.api_key {
        Some(k) => Some(k@),
        None => opt_text(old.auth.api_key),
    }
    &&& new.auth.admin_user@ == text_or(env.admin_user, old.auth.admin_user@)
    &&& new.auth.admin_password@ == text_or(env.admin_password, old.auth.admin_password@)
    &&& new.rate_limit.enabled == (old.rate_limit.enabled && env.disable_rate_limit is None)
    &&& new.rate_limit.max_requests == number_or(env.rate_limit_max, u32::MAX as nat, old.rate_limit.max_requests as nat)
    &&& new.rate_limit.window_seconds == number_or(env.rate_limit_window, u64::MAX as nat, old.rate_limit.window_seconds as nat)
    &&& new.monitoring.enabled == old.monitoring.enabled
    &&& new.monitoring.interval_seconds == number_or(env.monitor_interval, u64::MAX as nat, old.monitoring.interval_seconds as nat)
    &&& opt_text(new.monitoring.webhook_url) == match env.webhook_url {
        Some(u) => Some(u@),
        None => opt_text(old.monitoring.webhook_url),
    }
    &&& (match env.email_enabled {
        None => new.monitoring.email == old.monitoring.email,
        Some(_) => new.monitoring.email matches Some(e) && email_overridden(old.monitoring.email, env, e),
    })
    &&& new.logging.level@ == text_or(env.rust_log, old.logging.level@)
    &&& opt_text(new.logging.log_dir) == opt_text(old.logging.log_dir)
    &&& new.logging.json_format == old.logging.json_format
}

/// A copy of an optional string.
fn copy_opt(o: &Option<String>) -> (r: Option<String>)
    ensures
        opt_text(r) == opt_text(*o),
{
    match o {
        Some(s) => Some(String::from_str(s.as_str())),
        None => None,
    }
}

/// The setting that a text variable gives, or the old one.
fn text_override(v: &Option<String>, old: &String) -> (r: String)
    ensures
        r@ == text_or(*v, old@),
{
    match v {
        Some(s) => String::from_str(s.as_str()),
        None => String::from_str(old.as_str()),
    }
}

/// A copy of a list of strings.
fn copy_strings(v: &Vec<String>) -> (r: Vec<String>)
    ensures
        strings_view(r@) == strings_view(v@),
{
    let mut r: Vec<String> = Vec::new();
    let mut i: usize = 0;
    while i < v.len()
        invariant
            i <= v@.len(),
            strings_view(r@) == strings_view(v@.subrange(0, i as int)),
        decreases v@.len() - i,
    {
        let ghost before = strings_view(r@);
        r.push(String::from_str(v[i].as_str()));
        assert(strings_view(r@) =~= before.push(v@[i as int]@));
        assert(strings_view(v@.subrange(0, i + 1)) =~= strings_view(v@.subrange(0, i as int)).push(v@[i as int]@));
        i = i + 1;
    }
    assert(v@.subrange(0, v@.len() as int) =~= v@);
    r
}

/// The email settings once enabled from the environment.
fn email_override(old: &Option<EmailConfig>, env: &EnvOverrides) -> (e: EmailConfig)
    ensures
        email_overridden(*old, *env, e),
{
    let (server, port, user, pass, from, to) = match old {
        Some(o) => (
            String::from_str(o.smtp_server.as_str()),
            o.smtp_port,
            String::from_str(o.smtp_username.as_str()),
            String::from_str(o.smtp_password.as_str()),
            String::from_str(o.from_address.as_str()),
            copy_strings(&o.to_addresses),
        ),
        None => (String::new(), 587u16, String::new(), String::new(), String::new(), Vec::new()),
    };
    assert(old is None ==> strings_view(to@) =~= Seq::<Seq<char>>::empty());
    let smtp_port = match &env.smtp_port {
        Some(t) => match parse_unsigned_chars(to_chars(t.as_str()).as_slice(), u16::MAX as u64) {
            Some(n) => n as u16,
            None => port,
        },
        None => port,
    };
    let to_addresses = match &env.email_to {
        Some(t) => split_on(t.as_str(), ','),
        None => to,
    };
    EmailConfig {
        smtp_server: text_override(&env.smtp_host, &server),
        smtp_port,
        smtp_username: text_override(&env.smtp_username, &user),
        smtp_password: text_override(&env.smtp_password, &pass),
        from_address: text_override(&env.email_from, &from),
        to_addresses,
    }
}

/// The setting that a `u64` variable gives when it parses, or the old one.
fn u64_override(v: &Option<String>, old: u64) -> (r: u64)
    ensures
        r == number_or(*v, u64::MAX as nat, old as nat),
{
    match v {
        Some(s) => match parse_u64(to_chars(s.as_str()).as_slice()) {
            Some(n) => n,
            None => old,
        },
        None => old,
    }
}

/// The setting that a `u32` variable gives when it parses, or the old one.
fn u32_override(v: &Option<String>, old: u32) -> (r: u32)
    ensures
        r == number_or(*v, u32::MAX as nat, old as nat),
{
    match v {
        Some(s) => match parse_u32(to_chars(s.as_str()).as_slice()) {
            Some(n) => n,
            None => old,
        },
        None => old,
    }
}

/// What `Duration::from_secs` gives for `secs`.
pub uninterp spec fn duration_of_secs(secs: u64) -> Duration;

/// `std::time::Duration::from_secs`. Claimed: its result is `duration_of_secs`
/// of its argument.
#[verifier::external_body]
fn duration_from_secs(secs: u64) -> (d: Duration)
    ensures
        d == duration_of_secs(secs),
{
    Duration::from_secs(secs)
}

/// The error of a configuration, if it has one: TLS needs both a certificate
/// and a key.
pub open spec fn config_error(c: Config) -> Option<Seq<char>> {
    if c.server.enable_tls && (c.server.tls_cert is None || c.server.tls_key is None) {
        Some("TLS enabled but certificate or key path not specified"@)
    } else {
        None
    }
}

/// The environment's overrides never make a valid configuration invalid: they
/// leave TLS, its certificate and its key as they were.
pub proof fn lemma_overrides_keep_valid(old: Config, env: EnvOverrides, new: Config)
    requires
        overridden(old, env, new),
    ensures
        config_error(old) is None ==> config_error(new) is None,
{
}

/// The default configuration passes the checks.
pub proof fn lemma_default_is_valid(c: Config)
    requires
        is_default_config(c),
    ensures
        config_error(c) is None,
{
}

impl Config {
    /// Applies the environment's overrides.
    pub fn apply_env_overrides(&mut self, env: &EnvOverrides)
        ensures
            overridden(*old(self), *env, *final(self)),
    {
        let bind = text_override(&env.bind_address, &self.server.bind_address);
        self.server.bind_address = bind;
        if env.disable_auth.is_some() {
            self.auth.disable_auth = true;
        }
        let secret = text_override(&env.jwt_secret, &self.auth.jwt_secret);
        self.auth.jwt_secret = secret;
        if env.api_key.is_some() {
            self.auth.api_key = copy_opt(&env.api_key);
        }
        let user = text_override(&env.admin_user, &self.auth.admin_user);
        self.auth.admin_user = user;
        let pass = text_override(&env.admin_password, &self.auth.admin_password);
        self.auth.admin_password = pass;
        if env.disable_rate_limit.is_some() {
            self.rate_limit.enabled = false;
        }
        self.rate_limit.max_requests = u32_override(&env.rate_limit_max, self.rate_limit.max_requests);
        self.rate_limit.window_seconds = u64_override(&env.rate_limit_window, self.rate_limit.window_seconds);
        if env.webhook_url.is_some() {
            self.monitoring.webhook_url = copy_opt(&env.webhook_url);
        }
        self.monitoring.interval_seconds = u64_override(&env.monitor_interval, self.monitoring.interval_seconds);
        let level = text_override(&env.rust_log, &self.logging.level);
        self.logging.level = level;
        if env.email_enabled.is_some() {
            let email = email_override(&self.monitoring.email, env);
            self.monitoring.email = Some(email);
        }
    }

    /// Checks the configuration.
    pub fn validate(&self) -> (r: Result<(), String>)
        ensures
            match config_error(*self) {
                None => r is Ok,
                Some(m) => r matches Err(t) && t@ == m,
            },
    {
        if self.server.enable_tls && (self.server.tls_cert.is_none() || self.server.tls_key.is_none()) {
            return Err(String::from_str("TLS enabled but certificate or key path not specified"));
        }
        Ok(())
    }

    /// The configuration in force: the file's when there is one (or the error
    /// of reading it), the defaults otherwise; then the environment's
    /// overrides; and it must pass the checks.
    pub fn load(file: Option<Result<Config, String>>, env: &EnvOverrides) -> (r: Result<Config, String>)
        ensures
            match file {
                Some(Err(e)) => r == Err::<Config, String>(e),
                Some(Ok(c)) => match r {
                    Ok(n) => overridden(c, *env, n) && config_error(n) is None,
                    Err(m) => exists|n: Config| overridden(c, *env, n) && #[trigger] config_error(n) == Some(m@),
                },
                None => r matches Ok(n) && config_error(n) is None
                    && exists|d: Config| #[trigger] is_default_config(d) && overridden(d, *env, n),
            },
    {
        let mut config = match file {
            Some(Err(e)) => {
                return Err(e);
            },
            Some(Ok(c)) => c,
            None => Config::default(),
        };
        let ghost before = config;
        config.apply_env_overrides(env);
        proof {
            lemma_overrides_keep_valid(before, *env, config);
        }
        match config.validate() {
            Err(m) => {
                assert(config_error(config) == Some(m@));
                Err(m)
            },
            Ok(()) => Ok(config),
        }
    }

    /// The length of a rate-limit window.
    pub fn rate_limit_duration(&self) -> (d: Duration)
        ensures
            d == duration_of_secs(self.rate_limit.window_seconds),
    {
        duration_from_secs(self.rate_limit.window_seconds)
    }

    /// The time between two checks of the arrays.
    pub fn monitor_interval(&self) -> (d: Duration)
        ensures
            d == duration_of_secs(self.monitoring.interval_seconds),
    {
        duration_from_secs(self.monitoring.interval_seconds)
    }
}

} // verus!
