//! The configuration snapshot the server core consumes.
use vstd::prelude::*;
use crate::codec::join_text;
use crate::protocol::str_eq;
use vstd::utf8::encode_utf8;

verus! {

/// Server configuration.
#[derive(Debug, Clone)]
pub struct ServerConfig {
    /// Host to bind to
    pub host: String,
    /// Authentication port
    pub auth_port: u16,
    /// Accounting port
    pub acct_port: u16,
    /// Change-of-authorization port
    pub coa_port: u16,
    /// RADIUS shared secret
    pub secret: String,
    /// Number of worker threads (none: one per CPU core)
    pub worker_threads: Option<usize>,
    /// Graceful shutdown timeout in seconds
    pub shutdown_timeout_secs: u64,
}

/// Security configuration.
#[derive(Debug, Clone)]
pub struct SecurityConfig {
    /// Supported authentication protocols
    pub auth_protocols: Vec<String>,
    /// Maximum request size in bytes
    pub max_request_size: usize,
    /// Request timeout in milliseconds
    pub request_timeout_ms: u64,
    /// Whether RadSec (RADIUS over TLS) is enabled
    pub radsec_enabled: bool,
    /// RadSec certificate path
    pub radsec_cert_path: Option<String>,
    /// RadSec key path
    pub radsec_key_path: Option<String>,
    /// Whether Access-Requests must carry a Message-Authenticator
    pub require_message_authenticator: bool,
}


/// One backend-specific setting value.
#[derive(Debug, Clone)]
pub enum Setting {
    /// A text value
    Text(String),
    /// A boolean value
    Flag(bool),
    /// An integer value
    Integer(i64),
    /// A value of another kind, kept only as present
    Other,
}

/// Authentication backend configuration.
#[derive(Debug, Clone)]
pub struct AuthBackendConfig {
    /// Backend type (local, mac, ldap, oauth)
    pub backend_type: String,
    /// Whether this backend is enabled
    pub enabled: bool,
    /// Backend-specific settings, by key
    pub settings: Vec<(String, Setting)>,
}

/// The first setting called `key` in `s`, from index `from` on.
pub open spec fn setting_from(s: Seq<(String, Setting)>, key: Seq<char>, from: int) -> Option<Setting>
    decreases s.len() - from,
{
    if from < 0 || from >= s.len() {
        None
    } else if s[from].0@ == key {
        Some(s[from].1)
    } else {
        setting_from(s, key, from + 1)
    }
}

impl AuthBackendConfig {
    /// The setting called `key`, if present.
    pub open spec fn spec_setting(&self, key: Seq<char>) -> Option<Setting> {
        setting_from(self.settings@, key, 0)
    }

    /// The setting called `key`, if present; the first one wins.
    pub fn setting(&self, key: &str) -> (r: Option<&Setting>)
        ensures
            r matches Some(v) ==> self.spec_setting(key@) == Some(*v),
            r is None ==> self.spec_setting(key@) is None,
    {
        let mut i: usize = 0;
        while i < self.settings.len()
            invariant
                i <= self.settings@.len(),
                self.spec_setting(key@) == setting_from(self.settings@, key@, i as int),
            decreases self.settings@.len() - i,
        {
            if crate::protocol::str_eq(self.settings[i].0.as_str(), key) {
                return Some(&self.settings[i].1);
            }
            i = i + 1;
        }
        None
    }
}

/// Why a backend could not be built from its configuration.
#[derive(Debug, Clone, Copy, PartialEq, Eq, Structural)]
pub enum ConfigError {
    /// A local backend has no `users_file` text setting.
    MissingUsersFile,
    /// The backend type is not one of local, mac, ldap, oauth.
    UnknownBackendType,
    /// A user table is not a JSON object of text values.
    InvalidUserTable,
    /// The text of a local backend's users file was not supplied.
    UsersFileMissing,
}


/// Logging configuration.
#[derive(Debug, Clone)]
pub struct LoggingConfig {
    /// Log level
    pub level: String,
    /// Log file path
    pub file: Option<String>,
    /// Whether to log to the console
    pub console: bool,
    /// Log format
    pub format: String,
}

/// Metrics configuration.
#[derive(Debug, Clone)]
pub struct MetricsConfig {
    /// Whether metrics are collected
    pub enabled: bool,
    /// Whether the Prometheus endpoint is served
    pub prometheus_enabled: bool,
    /// Prometheus endpoint host
    pub host: String,
    /// Prometheus endpoint port
    pub port: u16,
    /// Metrics reporting interval in seconds
    pub interval_secs: u64,
}

/// Captive portal branding.
#[derive(Debug, Clone)]
pub struct PortalBrandingConfig {
    /// Portal title
    pub title: String,
    /// Path to the logo image
    pub logo: Option<String>,
    /// Primary colour (hex)
    pub primary_color: String,
    /// Secondary colour (hex)
    pub secondary_color: String,
    /// Path to the background image
    pub background_image: Option<String>,
}

/// Captive portal configuration.
#[derive(Debug, Clone)]
pub struct CaptivePortalConfig {
    /// Whether the captive portal is enabled
    pub enabled: bool,
    /// HTTP port
    pub port: u16,
    /// Host to bind to
    pub host: String,
    /// Path to the template directory
    pub template_dir: String,
    /// Branding options
    pub branding: PortalBrandingConfig,
}

/// Deployment templates for common scenarios.
#[derive(Debug, Clone, Copy, PartialEq, Eq, Structural)]
pub enum DeploymentTemplate {
    /// Basic authentication with a local user database
    Basic,
    /// Open WiFi with a captive portal
    OpenWithCaptivePortal,
    /// WPA2/WPA3 Enterprise
    Enterprise,
    /// Hotel guest access
    HotelGuest,
    /// Cafe or restaurant guest access
    CafeGuest,
    /// Corporate guest access
    CorporateGuest,
}

/// The whole configuration snapshot.
#[derive(Debug, Clone)]
pub struct Config {
    /// Server configuration
    pub server: ServerConfig,
    /// Security configuration
    pub security: SecurityConfig,
    /// Logging configuration
    pub logging: LoggingConfig,
    /// Metrics configuration
    pub metrics: MetricsConfig,
    /// Authentication backends, by name
    pub auth_backends: Vec<(String, AuthBackendConfig)>,
    /// Captive portal configuration
    pub captive_portal: Option<CaptivePortalConfig>,
    /// The template this configuration was made from
    pub template: Option<DeploymentTemplate>,
}

/// Why a configuration is refused.
#[derive(Debug, Clone, Copy, PartialEq, Eq, Structural)]
pub enum ValidationError {
    /// The shared secret is shorter than sixteen bytes.
    SecretTooShort,
    /// RadSec is enabled without a certificate path.
    MissingRadsecCertificate,
    /// RadSec is enabled without a key path.
    MissingRadsecKey,
    /// No authentication backend is enabled.
    NoEnabledBackend,
}

/// The server, security (but for its protocol list), logging and metrics
/// sections hold their default values, the shared secret aside.
pub open spec fn has_default_settings(c: Config) -> bool {
    &&& c.server.host@ == "0.0.0.0"@
    &&& c.server.auth_port == 1812
    &&& c.server.acct_port == 1813
    &&& c.server.coa_port == 3799
    &&& c.server.worker_threads is None
    &&& c.server.shutdown_timeout_secs == 30
    &&& c.security.max_request_size == 4096
    &&& c.security.request_timeout_ms == 5000
    &&& !c.security.radsec_enabled
    &&& c.security.radsec_cert_path is None
    &&& c.security.radsec_key_path is None
    &&& c.security.require_message_authenticator
    &&& c.logging.level@ == "info"@
    &&& c.logging.file is None
    &&& c.logging.console
    &&& c.logging.format@ == "json"@
    &&& c.metrics.enabled
    &&& c.metrics.prometheus_enabled
    &&& c.metrics.host@ == "127.0.0.1"@
    &&& c.metrics.port == 9090
    &&& c.metrics.interval_secs == 10
}

/// Some backend configuration is enabled.
pub open spec fn has_enabled_backend(s: Seq<(String, AuthBackendConfig)>) -> bool {
    exists|i: int| 0 <= i < s.len() && s[i].1.enabled
}

/// The first reason `c` is refused, if any.
pub open spec fn validation_error(c: Config) -> Option<ValidationError> {
    if encode_utf8(c.server.secret@).len() < 16 {
        Some(ValidationError::SecretTooShort)
    } else if c.security.radsec_enabled && c.security.radsec_cert_path is None {
        Some(ValidationError::MissingRadsecCertificate)
    } else if c.security.radsec_enabled && c.security.radsec_key_path is None {
        Some(ValidationError::MissingRadsecKey)
    } else if !has_enabled_backend(c.auth_backends@) {
        Some(ValidationError::NoEnabledBackend)
    } else {
        None
    }
}

/// What `str::to_lowercase` makes of `s`.
pub uninterp spec fn lower_of(s: Seq<char>) -> Seq<char>;

/// Relies on `str::to_lowercase`: the result depends on the text alone.
#[verifier::external_body]
fn lowercase(s: &str) -> (r: String)
    ensures
        r@ == lower_of(s@),
{
    s.to_lowercase()
}

pub fn default_host() -> (r: String)
    ensures
        r@ == "0.0.0.0"@,
{
    "0.0.0.0".to_owned()
}

pub fn default_auth_port() -> (r: u16)
    ensures
        r == 1812,
{
    1812
}

pub fn default_acct_port() -> (r: u16)
    ensures
        r == 1813,
{
    1813
}

pub fn default_coa_port() -> (r: u16)
    ensures
        r == 3799,
{
    3799
}

pub fn default_shutdown_timeout() -> (r: u64)
    ensures
        r == 30,
{
    30
}

pub fn default_auth_protocols() -> (r: Vec<String>)
    ensures
        r@.len() == 4,
        r@[0]@ == "pap"@,
        r@[1]@ == "chap"@,
        r@[2]@ == "mschap"@,
        r@[3]@ == "peap"@,
{
    let mut v: Vec<String> = Vec::new();
    v.push("pap".to_owned());
    v.push("chap".to_owned());
    v.push("mschap".to_owned());
    v.push("peap".to_owned());
    v
}

pub fn default_max_request_size() -> (r: usize)
    ensures
        r == 4096,
{
    4096
}

pub fn default_request_timeout() -> (r: u64)
    ensures
        r == 5000,
{
    5000
}

pub fn default_radsec_enabled() -> (r: bool)
    ensures
        !r,
{
    false
}

pub fn default_true() -> (r: bool)
    ensures
        r,
{
    true
}

pub fn default_false() -> (r: bool)
    ensures
        !r,
{
    false
}

pub fn default_log_level() -> (r: String)
    ensures
        r@ == "info"@,
{
    "info".to_owned()
}

pub fn default_log_format() -> (r: String)
    ensures
        r@ == "json"@,
{
    "json".to_owned()
}

pub fn default_metrics_host() -> (r: String)
    ensures
        r@ == "127.0.0.1"@,
{
    "127.0.0.1".to_owned()
}

pub fn default_prometheus_port() -> (r: u16)
    ensures
        r == 9090,
{
    9090
}

pub fn default_metrics_interval() -> (r: u64)
    ensures
        r == 10,
{
    10
}

pub fn default_portal_port() -> (r: u16)
    ensures
        r == 8080,
{
    8080
}

pub fn default_portal_title() -> (r: String)
    ensures
        r@ == "WiFi Access Portal"@,
{
    "WiFi Access Portal".to_owned()
}

pub fn default_primary_color() -> (r: String)
    ensures
        r@ == "#4a86e8"@,
{
    "#4a86e8".to_owned()
}

pub fn default_secondary_color() -> (r: String)
    ensures
        r@ == "#ffffff"@,
{
    "#ffffff".to_owned()
}

impl Default for PortalBrandingConfig {
    fn default() -> (r: PortalBrandingConfig)
        ensures
            r.title@ == "WiFi Access Portal"@,
            r.logo is None,
            r.primary_color@ == "#4a86e8"@,
            r.secondary_color@ == "#ffffff"@,
            r.background_image is None,
    {
        PortalBrandingConfig {
            title: default_portal_title(),
            logo: None,
            primary_color: default_primary_color(),
            secondary_color: default_secondary_color(),
            background_image: None,
        }
    }
}

impl Default for Config {
    fn default() -> (r: Config)
        ensures
            has_default_settings(r),
            r.server.secret@ == "change-me-to-a-secure-secret"@,
            r.security.auth_protocols@.len() == 4,
            r.auth_backends@.len() == 0,
            r.captive_portal is None,
            r.template is None,
    {
        Config {
            server: ServerConfig {
                host: default_host(),
                auth_port: default_auth_port(),
                acct_port: default_acct_port(),
                coa_port: default_coa_port(),
                secret: "change-me-to-a-secure-secret".to_owned(),
                worker_threads: None,
                shutdown_timeout_secs: default_shutdown_timeout(),
            },
            security: SecurityConfig {
                auth_protocols: default_auth_protocols(),
                max_request_size: default_max_request_size(),
                request_timeout_ms: default_request_timeout(),
                radsec_enabled: default_radsec_enabled(),
                radsec_cert_path: None,
                radsec_key_path: None,
                require_message_authenticator: default_true(),
            },
            logging: LoggingConfig {
                level: default_log_level(),
                file: None,
                console: default_true(),
                format: default_log_format(),
            },
            metrics: MetricsConfig {
                enabled: default_true(),
                prometheus_enabled: default_true(),
                host: default_metrics_host(),
                port: default_prometheus_port(),
                interval_secs: default_metrics_interval(),
            },
            auth_backends: Vec::new(),
            captive_portal: None,
            template: None,
        }
    }
}

/// A backend configuration of the given type with one setting.
fn backend_with(backend_type: &str, key: &str, value: Setting) -> (r: AuthBackendConfig)
    ensures
        r.backend_type@ == backend_type@,
        r.enabled,
        r.settings@.len() == 1,
        r.settings@[0].0@ == key@,
        r.settings@[0].1 == value,
{
    let mut settings: Vec<(String, Setting)> = Vec::new();
    settings.push((key.to_owned(), value));
    AuthBackendConfig { backend_type: backend_type.to_owned(), enabled: true, settings }
}

/// A portal listening on the default address with the given look.
fn portal(template_dir: String, branding: PortalBrandingConfig) -> (r: CaptivePortalConfig)
    ensures
        r.enabled,
        r.port == 8080,
        r.template_dir == template_dir,
        r.branding == branding,
{
    CaptivePortalConfig { enabled: true, port: 8080, host: default_host(), template_dir, branding }
}

impl Config {
    /// Check the configuration: a shared secret of at least sixteen bytes,
    /// RadSec paths where RadSec is enabled, and an enabled backend.
    pub fn validate(&self) -> (r: Result<(), ValidationError>)
        ensures
            r is Ok <==> validation_error(*self) is None,
            r matches Err(e) ==> validation_error(*self) == Some(e),
    {
        let secret = self.server.secret.as_str();
        assert(secret@ == self.server.secret@);
        let n = secret.as_bytes().len();
        assert(n == encode_utf8(self.server.secret@).len());
        if n < 16 {
            return Err(ValidationError::SecretTooShort);
        }
        if self.security.radsec_enabled {
            if self.security.radsec_cert_path.is_none() {
                return Err(ValidationError::MissingRadsecCertificate);
            }
            if self.security.radsec_key_path.is_none() {
                return Err(ValidationError::MissingRadsecKey);
            }
        }
        let mut i: usize = 0;
        while i < self.auth_backends.len()
            invariant
                i <= self.auth_backends@.len(),
                forall|j: int| 0 <= j < i ==> !self.auth_backends@[j].1.enabled,
                encode_utf8(self.server.secret@).len() >= 16,
                !(self.security.radsec_enabled && self.security.radsec_cert_path is None),
                !(self.security.radsec_enabled && self.security.radsec_key_path is None),
            decreases self.auth_backends@.len() - i,
        {
            if self.auth_backends[i].1.enabled {
                return Ok(());
            }
            i = i + 1;
        }
        Err(ValidationError::NoEnabledBackend)
    }

    /// Configure the hospitality templates: MAC bypass for first
    /// connection, vouchers in a local user table, and a branded portal.
    fn configure_hospitality_template(config: &mut Config, venue_type: &str)
        ensures
            final(config).auth_backends@.len() == old(config).auth_backends@.len() + 2,
            forall|k: int| 0 <= k < old(config).auth_backends@.len()
                ==> #[trigger] final(config).auth_backends@[k] == old(config).auth_backends@[k],
            final(config).auth_backends@[old(config).auth_backends@.len() as int].1.backend_type@ == "mac"@,
            final(config).auth_backends@[old(config).auth_backends@.len() as int].1.enabled,
            final(config).auth_backends@[old(config).auth_backends@.len() + 1int].1.backend_type@ == "local"@,
            final(config).auth_backends@[old(config).auth_backends@.len() + 1int].1.enabled,
            final(config).server == old(config).server,
            final(config).security == old(config).security,
            final(config).logging == old(config).logging,
            final(config).metrics == old(config).metrics,
            final(config).template == old(config).template,
            final(config).captive_portal is Some,
    {
        config.auth_backends.push(("mac".to_owned(), backend_with("mac", "accept_unknown", Setting::Flag(true))));
        config.auth_backends.push(
            ("local".to_owned(), backend_with("local", "users_file", Setting::Text("config/vouchers.json".to_owned()))),
        );
        let lower = lowercase(venue_type);
        let title = join_text(venue_type, " WiFi Access");
        let template_dir = join_text("templates/", lower.as_str());
        let logo_head = join_text("assets/", lower.as_str());
        let logo = join_text(logo_head.as_str(), "-logo.png");
        let background = join_text(logo_head.as_str(), "-background.jpg");
        let primary = if str_eq(venue_type, "Hotel") { "#8a2be2".to_owned() } else { "#4caf50".to_owned() };
        let branding = PortalBrandingConfig {
            title,
            logo: Some(logo),
            primary_color: primary,
            secondary_color: default_secondary_color(),
            background_image: Some(background),
        };
        config.captive_portal = Some(portal(template_dir, branding));
    }

    /// A configuration made from a deployment template.
    pub fn from_template(template: DeploymentTemplate, secret: String) -> (r: Config)
        ensures
            r.template == Some(template),
            r.server.secret == secret,
            has_default_settings(r),
            r.auth_backends@.len() == (if template == DeploymentTemplate::HotelGuest
                || template == DeploymentTemplate::CafeGuest { 2int } else { 1int }),
            (template == DeploymentTemplate::Basic || template == DeploymentTemplate::Enterprise)
                <==> r.captive_portal is None,
            forall|k: int| 0 <= k < r.auth_backends@.len() ==> (#[trigger] r.auth_backends@[k]).1.enabled,
            template == DeploymentTemplate::Basic ==> r.auth_backends@[0].0@ == "local"@
                && r.auth_backends@[0].1.settings@.len() == 1
                && r.auth_backends@[0].1.backend_type@ == "local"@
                && (r.auth_backends@[0].1.spec_setting("users_file"@) matches Some(Setting::Text(p))
                && p@ == "config/users.json"@),
            template == DeploymentTemplate::OpenWithCaptivePortal ==> r.auth_backends@[0].1.backend_type@ == "mac"@
                && r.auth_backends@[0].1.spec_setting("accept_unknown"@) == Some(Setting::Flag(true)),
            template == DeploymentTemplate::Enterprise ==> r.auth_backends@[0].1.backend_type@ == "ldap"@,
            template == DeploymentTemplate::CorporateGuest ==> r.auth_backends@[0].1.backend_type@ == "oauth"@,
            (template == DeploymentTemplate::HotelGuest || template == DeploymentTemplate::CafeGuest)
                ==> r.auth_backends@[0].1.backend_type@ == "mac"@ && r.auth_backends@[1].1.backend_type@ == "local"@,
    {
        let mut config = Config::default();
        config.template = Some(template);
        config.server.secret = secret;
        match template {
            DeploymentTemplate::Basic => {
                config.auth_backends.push(
                    ("local".to_owned(), backend_with("local", "users_file", Setting::Text("config/users.json".to_owned()))),
                );
            },
            DeploymentTemplate::OpenWithCaptivePortal => {
                config.auth_backends.push(
                    ("mac".to_owned(), backend_with("mac", "accept_unknown", Setting::Flag(true))),
                );
                config.captive_portal = Some(portal("templates/default".to_owned(), PortalBrandingConfig::default()));
            },
            DeploymentTemplate::Enterprise => {
                let mut protocols: Vec<String> = Vec::new();
                protocols.push("eap-tls".to_owned());
                protocols.push("peap".to_owned());
                protocols.push("ttls".to_owned());
                config.security.auth_protocols = protocols;
                let mut settings: Vec<(String, Setting)> = Vec::new();
                settings.push(("server".to_owned(), Setting::Text("ldap://ldap.example.com:389".to_owned())));
                settings.push(("bind_dn".to_owned(), Setting::Text("cn=admin,dc=example,dc=com".to_owned())));
                settings.push(("bind_password".to_owned(), Setting::Text("password".to_owned())));
                settings.push(("user_base_dn".to_owned(), Setting::Text("ou=users,dc=example,dc=com".to_owned())));
                settings.push(("user_filter".to_owned(), Setting::Text("(uid={username})".to_owned())));
                config.auth_backends.push(
                    ("ldap".to_owned(), AuthBackendConfig { backend_type: "ldap".to_owned(), enabled: true, settings }),
                );
            },
            DeploymentTemplate::HotelGuest => {
                Config::configure_hospitality_template(&mut config, "Hotel");
            },
            DeploymentTemplate::CafeGuest => {
                Config::configure_hospitality_template(&mut config, "Cafe");
            },
            DeploymentTemplate::CorporateGuest => {
                let mut settings: Vec<(String, Setting)> = Vec::new();
                settings.push(("provider".to_owned(), Setting::Text("azure".to_owned())));
                settings.push(("client_id".to_owned(), Setting::Text("your-client-id".to_owned())));
                settings.push(("client_secret".to_owned(), Setting::Text("your-client-secret".to_owned())));
                config.auth_backends.push(
                    ("oauth".to_owned(), AuthBackendConfig { backend_type: "oauth".to_owned(), enabled: true, settings }),
                );
                let branding = PortalBrandingConfig {
                    title: "Corporate WiFi Access".to_owned(),
                    logo: Some("assets/corporate-logo.png".to_owned()),
                    primary_color: "#0056b3".to_owned(),
                    secondary_color: "#ffffff".to_owned(),
                    background_image: None,
                };
                config.captive_portal = Some(portal("templates/corporate".to_owned(), branding));
            },
        }
        config
    }
}

} // verus!
