//! The service configuration: one explicit struct, built once at startup
//! and passed into every component that needs it.

use vstd::prelude::*;
use crate::errors::ServiceError;
use crate::strutil::decimal_spec;
use crate::strutil::u32_to_string;

verus! {

/// Stores a database type (currently only MySQL).
#[derive(Clone, Copy, Debug, PartialEq, Eq, Structural)]
pub enum DbServerType {
    Mysql,
}

/// Configurations for the http server.
pub struct Server {
    pub host: String,
    pub ip: String,
    pub port: u32,
    pub workers: usize,
    pub registration: bool,
    pub secret: String,
    pub domain: String,
    pub rate_limit_period: Option<u64>,
    pub rate_limit_burst_size: Option<u32>,
}

/// Configurations for the files app.
pub struct Files {
    pub read_only: bool,
}

/// Configurations for the database connector.
pub struct Database {
    pub db: String,
    pub user: String,
    pub password: String,
    pub host: String,
    pub name: String,
    pub pool: u32,
}

/// Configurations for tls.
pub struct Tls {
    pub enabled: bool,
    pub certificate_path: Option<String>,
    pub key_path: Option<String>,
}

/// Collection of all partial configurations.
pub struct AppConfig {
    pub server: Server,
    pub files: Files,
    pub database: Database,
    pub tls: Tls,
}

impl AppConfig {
    /// Assembles the configuration from its parsed parts, enforcing at
    /// load time that the shared secret holds at least 32 bytes.
    pub fn new(server: Server, files: Files, database: Database, tls: Tls) -> (r: Result<
        AppConfig,
        ServiceError,
    >)
        ensures
            match r {
                Ok(c) => vstd::utf8::encode_utf8(server.secret@).len() >= 32 && c.server
                    == server && c.files == files && c.database == database && c.tls == tls,
                Err(e) => e == ServiceError::InternalServerError && vstd::utf8::encode_utf8(
                    server.secret@,
                ).len() < 32,
            },
    {
        if server.secret.as_str().as_bytes().len() < 32 {
            return Err(ServiceError::InternalServerError);
        }
        Ok(AppConfig { server, files, database, tls })
    }
}

impl Server {
    /// Builds the server's listen address from its config parameters.
    pub fn listen_address(&self) -> (r: String)
        ensures
            r@ == self.ip@ + ":"@ + decimal_spec(self.port as int),
    {
        String::from_str(self.ip.as_str()).concat(":").concat(u32_to_string(self.port).as_str())
    }
}

impl Database {
    /// Builds the database url from the config parameters.
    pub fn url(&self) -> (r: String)
        ensures
            r@ == self.db@ + "://"@ + self.user@ + ":"@ + self.password@ + "@"@ + self.host@
                + "/"@ + self.name@,
    {
        String::from_str(self.db.as_str()).concat("://").concat(self.user.as_str()).concat(
            ":",
        ).concat(self.password.as_str()).concat("@").concat(self.host.as_str()).concat(
            "/",
        ).concat(self.name.as_str())
    }
}

} // verus!
