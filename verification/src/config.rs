//! The configuration snapshot: read-mostly policy data handed to every
//! operation. The core never parses configuration sources itself; an
//! outside loader builds a [`Configuration`] and passes it in.
use vstd::prelude::*;

use crate::storage::StorageType;

verus! {

/// The deployment environment the service runs in.
#[derive(Clone, Copy, PartialEq, Eq, Debug)]
pub enum Environment {
    Development,
    Production,
}

/// Policy for identities and the signup/login flows.
#[derive(Clone, Copy, PartialEq, Eq, Debug)]
pub struct IdentityConfig {
    pub signup_with_email: bool,
    pub signup_with_username: bool,
    pub signup_require_username: bool,
    pub signup_require_email: bool,
    pub signup_require_email_verification: bool,
    pub signup_process_lifetime: i64,
    pub login_with_username: bool,
    pub login_with_email: bool,
    pub login_process_lifetime: i64,
    pub allow_multiple_emails: bool,
    pub password_min_length: usize,
    pub check_leaked_passwords: bool,
}

/// Token lifetimes and signing policy.
#[derive(Clone, Copy, PartialEq, Eq, Debug)]
pub struct TokenConfig {
    pub sign_jwt: bool,
    pub access_token_lifetime: i64,
    pub refresh_token_lifetime: i64,
}

/// Mathematical view of [`SQLStorageOptions`].
#[verifier::ext_equal]
pub ghost struct SQLStorageOptionsV {
    pub storage_path: Seq<char>,
    pub sql_url: Seq<char>,
}

/// Connection parameters for a relational storage backend.
#[derive(Debug)]
pub struct SQLStorageOptions {
    pub storage_path: String,
    pub sql_url: String,
}

impl View for SQLStorageOptions {
    type V = SQLStorageOptionsV;

    open spec fn view(&self) -> SQLStorageOptionsV {
        SQLStorageOptionsV { storage_path: self.storage_path@, sql_url: self.sql_url@ }
    }
}

/// Mathematical view of [`RedisStorageOptions`].
#[verifier::ext_equal]
pub ghost struct RedisStorageOptionsV {
    pub storage_path: Seq<char>,
    pub redis_url: Seq<char>,
}

/// Connection parameters for a remote cache/store backend.
#[derive(Debug)]
pub struct RedisStorageOptions {
    pub storage_path: String,
    pub redis_url: String,
}

impl View for RedisStorageOptions {
    type V = RedisStorageOptionsV;

    open spec fn view(&self) -> RedisStorageOptionsV {
        RedisStorageOptionsV { storage_path: self.storage_path@, redis_url: self.redis_url@ }
    }
}

/// Mathematical view of [`StorageOptions`].
#[verifier::ext_equal]
pub ghost enum StorageOptionsV {
    SQL(SQLStorageOptionsV),
    Redis(RedisStorageOptionsV),
}

/// Connection parameters for the selected storage backend.
#[derive(Debug)]
pub enum StorageOptions {
    SQL(SQLStorageOptions),
    Redis(RedisStorageOptions),
}

impl View for StorageOptions {
    type V = StorageOptionsV;

    open spec fn view(&self) -> StorageOptionsV {
        match self {
            StorageOptions::SQL(o) => StorageOptionsV::SQL(o@),
            StorageOptions::Redis(o) => StorageOptionsV::Redis(o@),
        }
    }
}

/// Mathematical view of [`ServerConfig`].
#[verifier::ext_equal]
pub ghost struct ServerConfigV {
    pub keygate_domain: Seq<char>,
    pub admin_port: u16,
    pub admin_interface: Seq<char>,
    pub admin_prefix: Option<Seq<char>>,
    pub public_port: u16,
    pub public_interface: Seq<char>,
    pub public_prefix: Option<Seq<char>>,
}

/// Where the admin and public APIs listen. A port of 0 disables the API.
#[derive(Debug)]
pub struct ServerConfig {
    pub keygate_domain: String,
    pub admin_port: u16,
    pub admin_interface: String,
    pub admin_prefix: Option<String>,
    pub public_port: u16,
    pub public_interface: String,
    pub public_prefix: Option<String>,
}

impl View for ServerConfig {
    type V = ServerConfigV;

    open spec fn view(&self) -> ServerConfigV {
        ServerConfigV {
            keygate_domain: self.keygate_domain@,
            admin_port: self.admin_port,
            admin_interface: self.admin_interface@,
            admin_prefix: crate::models::opt_view(self.admin_prefix),
            public_port: self.public_port,
            public_interface: self.public_interface@,
            public_prefix: crate::models::opt_view(self.public_prefix),
        }
    }
}

/// Mathematical view of [`Configuration`].
#[verifier::ext_equal]
pub ghost struct ConfigurationV {
    pub environment: Environment,
    pub storage_type: StorageType,
    pub storage_options: StorageOptionsV,
    pub server: ServerConfigV,
    pub token: TokenConfig,
    pub identity: IdentityConfig,
}

/// The whole configuration snapshot.
#[derive(Debug)]
pub struct Configuration {
    pub environment: Environment,
    pub storage_type: StorageType,
    pub storage_options: StorageOptions,
    pub server: ServerConfig,
    pub token: TokenConfig,
    pub identity: IdentityConfig,
}

impl View for Configuration {
    type V = ConfigurationV;

    open spec fn view(&self) -> ConfigurationV {
        ConfigurationV {
            environment: self.environment,
            storage_type: self.storage_type,
            storage_options: self.storage_options@,
            server: self.server@,
            token: self.token,
            identity: self.identity,
        }
    }
}

fn default_access_token_lifetime() -> (r: i64)
    ensures
        r == 30 * 60,
{
    30 * 60
}

fn default_refresh_token_lifetime() -> (r: i64)
    ensures
        r == 14 * 24 * 3600,
{
    14 * 24 * 3600
}

fn default_admin_port() -> (r: u16)
    ensures
        r == 8081,
{
    8081
}

fn default_public_port() -> (r: u16)
    ensures
        r == 8080,
{
    8080
}

fn default_admin_interface() -> (r: String)
    ensures
        r@ == "127.0.0.1"@,
{
    "127.0.0.1".to_owned()
}

fn default_public_interface() -> (r: String)
    ensures
        r@ == "0.0.0.0"@,
{
    "0.0.0.0".to_owned()
}

fn default_storage_type() -> (r: StorageType)
    ensures
        r == StorageType::SQL,
{
    StorageType::SQL
}

fn default_storage_path() -> (r: String)
    ensures
        r@ == "./data"@,
{
    "./data".to_owned()
}

fn default_environment() -> (r: Environment)
    ensures
        r == Environment::Development,
{
    Environment::Development
}

fn default_storage_options() -> (r: StorageOptions)
    ensures
        r@ == StorageOptions::default_spec(),
{
    StorageOptions::default()
}

impl SQLStorageOptions {
    /// The default connection parameters for the relational backend.
    pub open spec fn default_spec() -> SQLStorageOptionsV {
        SQLStorageOptionsV { storage_path: "./data"@, sql_url: "sqlite://data.db"@ }
    }
}

impl Default for SQLStorageOptions {
    fn default() -> (r: Self)
        ensures
            r@ == Self::default_spec(),
    {
        let r = SQLStorageOptions {
            storage_path: default_storage_path(),
            sql_url: "sqlite://data.db".to_owned(),
        };
        proof {
            assert(r@ =~= Self::default_spec());
        }
        r
    }
}

impl RedisStorageOptions {
    /// The default connection parameters for the remote cache backend.
    pub open spec fn default_spec() -> RedisStorageOptionsV {
        RedisStorageOptionsV { storage_path: "./data"@, redis_url: "redis://localhost/"@ }
    }
}

impl Default for RedisStorageOptions {
    fn default() -> (r: Self)
        ensures
            r@ == Self::default_spec(),
    {
        let r = RedisStorageOptions {
            storage_path: default_storage_path(),
            redis_url: "redis://localhost/".to_owned(),
        };
        proof {
            assert(r@ =~= Self::default_spec());
        }
        r
    }
}

impl StorageOptions {
    /// By default the remote cache backend is configured.
    pub open spec fn default_spec() -> StorageOptionsV {
        StorageOptionsV::Redis(RedisStorageOptions::default_spec())
    }
}

impl Default for StorageOptions {
    fn default() -> (r: Self)
        ensures
            r@ == Self::default_spec(),
    {
        StorageOptions::Redis(RedisStorageOptions::default())
    }
}

impl ServerConfig {
    /// The default listen addresses: admin bound to loopback, public open.
    pub open spec fn default_spec() -> ServerConfigV {
        ServerConfigV {
            keygate_domain: "auth.localhost"@,
            admin_port: 8081,
            admin_interface: "127.0.0.1"@,
            admin_prefix: None,
            public_port: 8080,
            public_interface: "0.0.0.0"@,
            public_prefix: None,
        }
    }
}

impl Default for ServerConfig {
    fn default() -> (r: Self)
        ensures
            r@ == Self::default_spec(),
    {
        let r = ServerConfig {
            keygate_domain: "auth.localhost".to_owned(),
            admin_port: default_admin_port(),
            admin_interface: default_admin_interface(),
            admin_prefix: None,
            public_port: default_public_port(),
            public_interface: default_public_interface(),
            public_prefix: None,
        };
        proof {
            assert(r@ =~= Self::default_spec());
        }
        r
    }
}

impl IdentityConfig {
    /// The default identity policy: username-based signup with one-hour
    /// process lifetimes and a minimum password length of 8.
    pub open spec fn default_spec() -> IdentityConfig {
        IdentityConfig {
            signup_with_email: false,
            signup_with_username: true,
            signup_require_username: true,
            signup_require_email: false,
            signup_require_email_verification: false,
            signup_process_lifetime: (60 * 60) as i64,
            login_with_username: true,
            login_with_email: true,
            login_process_lifetime: (60 * 60) as i64,
            allow_multiple_emails: false,
            password_min_length: 8,
            check_leaked_passwords: true,
        }
    }
}

impl Default for IdentityConfig {
    fn default() -> (r: Self)
        ensures
            r == Self::default_spec(),
    {
        IdentityConfig {
            signup_with_email: false,
            signup_with_username: true,
            signup_require_username: true,
            signup_require_email: false,
            signup_require_email_verification: false,
            signup_process_lifetime: 60 * 60,
            login_with_username: true,
            login_with_email: true,
            login_process_lifetime: 60 * 60,
            allow_multiple_emails: false,
            password_min_length: 8,
            check_leaked_passwords: true,
        }
    }
}

impl TokenConfig {
    /// The default token policy: unsigned tokens, half-hour access tokens,
    /// two-week refresh tokens.
    pub open spec fn default_spec() -> TokenConfig {
        TokenConfig {
            sign_jwt: false,
            access_token_lifetime: (30 * 60) as i64,
            refresh_token_lifetime: (14 * 24 * 3600) as i64,
        }
    }
}

impl Default for TokenConfig {
    fn default() -> (r: Self)
        ensures
            r == Self::default_spec(),
    {
        TokenConfig {
            sign_jwt: false,
            access_token_lifetime: default_access_token_lifetime(),
            refresh_token_lifetime: default_refresh_token_lifetime(),
        }
    }
}

impl Configuration {
    /// The default snapshot, combining the component defaults.
    pub open spec fn default_spec() -> ConfigurationV {
        ConfigurationV {
            environment: Environment::Development,
            storage_type: StorageType::SQL,
            storage_options: StorageOptions::default_spec(),
            server: ServerConfig::default_spec(),
            token: TokenConfig::default_spec(),
            identity: IdentityConfig::default_spec(),
        }
    }
}

impl Default for Configuration {
    fn default() -> (r: Self)
        ensures
            r@ == Self::default_spec(),
    {
        let r = Configuration {
            environment: default_environment(),
            storage_type: default_storage_type(),
            storage_options: default_storage_options(),
            server: ServerConfig::default(),
            token: TokenConfig::default(),
            identity: IdentityConfig::default(),
        };
        proof {
            assert(r@ =~= Self::default_spec());
        }
        r
    }
}

fn clone_opt_string(o: &Option<String>) -> (r: Option<String>)
    ensures
        crate::models::opt_view(r) == crate::models::opt_view(*o),
{
    match o {
        Some(s) => Some(s.clone()),
        None => None,
    }
}

impl Clone for SQLStorageOptions {
    fn clone(&self) -> (r: Self)
        ensures
            r@ == self@,
    {
        let r = SQLStorageOptions {
            storage_path: self.storage_path.clone(),
            sql_url: self.sql_url.clone(),
        };
        proof {
            assert(r@ =~= self@);
        }
        r
    }
}

impl Clone for RedisStorageOptions {
    fn clone(&self) -> (r: Self)
        ensures
            r@ == self@,
    {
        let r = RedisStorageOptions {
            storage_path: self.storage_path.clone(),
            redis_url: self.redis_url.clone(),
        };
        proof {
            assert(r@ =~= self@);
        }
        r
    }
}

impl Clone for StorageOptions {
    fn clone(&self) -> (r: Self)
        ensures
            r@ == self@,
    {
        match self {
            StorageOptions::SQL(o) => StorageOptions::SQL(o.clone()),
            StorageOptions::Redis(o) => StorageOptions::Redis(o.clone()),
        }
    }
}

impl Clone for ServerConfig {
    fn clone(&self) -> (r: Self)
        ensures
            r@ == self@,
    {
        let r = ServerConfig {
            keygate_domain: self.keygate_domain.clone(),
            admin_port: self.admin_port,
            admin_interface: self.admin_interface.clone(),
            admin_prefix: clone_opt_string(&self.admin_prefix),
            public_port: self.public_port,
            public_interface: self.public_interface.clone(),
            public_prefix: clone_opt_string(&self.public_prefix),
        };
        proof {
            assert(r@ =~= self@);
        }
        r
    }
}

impl Clone for Configuration {
    fn clone(&self) -> (r: Self)
        ensures
            r@ == self@,
    {
        let r = Configuration {
            environment: self.environment,
            storage_type: self.storage_type,
            storage_options: self.storage_options.clone(),
            server: self.server.clone(),
            token: self.token,
            identity: self.identity,
        };
        proof {
            assert(r@ =~= self@);
        }
        r
    }
}

} // verus!
