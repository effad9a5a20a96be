//! Configuration: the plain values the application runs with, and the
//! defaulting rules that turn raw environment strings into them. Reading
//! the environment happens outside the library; this module only decides
//! what each raw value means.

use vstd::prelude::*;

use crate::numeric::parse_i64;
use crate::numeric::parse_i64_spec;
use crate::numeric::parse_u16;
use crate::numeric::parse_u16_spec;

verus! {

/// Connection parameters of the relational store.
pub struct DbConfig {
    pub host: String,
    pub name: String,
    pub user: String,
    pub password: String,
    pub port: u16,
    pub driver: String,
}

/// The HTTP server's own settings.
pub struct AppConfig {
    pub port: u16,
}

/// Token issuance settings: the signing secret and the token lifetime in
/// hours.
pub struct Jwt {
    pub secret: String,
    pub expiration: i64,
}

/// Everything the application is configured with.
pub struct Config {
    pub db: DbConfig,
    pub app: AppConfig,
    pub jwt: Jwt,
}

/// The port a raw environment string resolves to: the parsed value, or
/// the default when the variable is missing or unparseable.
pub open spec fn spec_port_or(v: Option<String>, default: u16) -> u16 {
    match v {
        Some(s) => match parse_u16_spec(s@) {
            Some(p) => p,
            None => default,
        },
        None => default,
    }
}

/// Resolves a port-valued environment string.
pub fn port_or(v: &Option<String>, default: u16) -> (p: u16)
    ensures
        p == spec_port_or(*v, default),
{
    match v {
        Some(s) => match parse_u16(s.as_str()) {
            Some(p) => p,
            None => default,
        },
        None => default,
    }
}

/// The signed count a raw environment string resolves to, with a
/// default for a missing or unparseable value.
pub open spec fn spec_i64_or(v: Option<String>, default: i64) -> i64 {
    match v {
        Some(s) => match parse_i64_spec(s@) {
            Some(p) => p,
            None => default,
        },
        None => default,
    }
}

/// Resolves a signed environment string.
pub fn i64_or(v: &Option<String>, default: i64) -> (p: i64)
    ensures
        p == spec_i64_or(*v, default),
{
    match v {
        Some(s) => match parse_i64(s.as_str()) {
            Some(p) => p,
            None => default,
        },
        None => default,
    }
}

/// A string-valued setting, or its default when missing.
pub open spec fn spec_string_or(v: Option<String>, default: Seq<char>) -> Seq<char> {
    match v {
        Some(s) => s@,
        None => default,
    }
}

/// Resolves a string-valued environment variable.
pub fn string_or(v: Option<String>, default: &str) -> (r: String)
    ensures
        r@ == spec_string_or(v, default@),
{
    match v {
        Some(s) => s,
        None => default.to_owned(),
    }
}

/// Builds the configuration from the raw environment values, applying
/// the documented defaults: app port 3001, database localhost:5432
/// postgres test_db as root with an empty password, an hour count of
/// 3600 and the placeholder token secret.
pub fn config_from_env(
    app_port: Option<String>,
    db_host: Option<String>,
    db_name: Option<String>,
    db_user: Option<String>,
    db_password: Option<String>,
    db_port: Option<String>,
    db_driver: Option<String>,
    jwt_secret: Option<String>,
    jwt_expiration: Option<String>,
) -> (c: Config)
    ensures
        c.app.port == spec_port_or(app_port, 3001),
        c.db.host@ == spec_string_or(db_host, "localhost"@),
        c.db.name@ == spec_string_or(db_name, "test_db"@),
        c.db.user@ == spec_string_or(db_user, "root"@),
        c.db.password@ == spec_string_or(db_password, ""@),
        c.db.port == spec_port_or(db_port, 5432),
        c.db.driver@ == spec_string_or(db_driver, "postgres"@),
        c.jwt.secret@ == spec_string_or(jwt_secret, "secret"@),
        c.jwt.expiration == spec_i64_or(jwt_expiration, 3600),
{
    Config {
        app: AppConfig { port: port_or(&app_port, 3001) },
        db: DbConfig {
            host: string_or(db_host, "localhost"),
            name: string_or(db_name, "test_db"),
            user: string_or(db_user, "root"),
            password: string_or(db_password, ""),
            port: port_or(&db_port, 5432),
            driver: string_or(db_driver, "postgres"),
        },
        jwt: Jwt {
            secret: string_or(jwt_secret, "secret"),
            expiration: i64_or(&jwt_expiration, 3600),
        },
    }
}

} // verus!
