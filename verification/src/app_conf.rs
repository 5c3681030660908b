//! Turning raw configuration entries into an `AppConfig` struct: every
//! missing or unparsable entry falls back to a documented default.
//!
//! Reading configuration files is the caller's business; this module
//! receives the entries as plain key-value pairs.

use vstd::prelude::*;
use crate::strutil::str_eq;

verus! {

/// Stores a database type (currently only MySQL).
#[derive(Clone, Copy, Debug, PartialEq, Eq, Structural)]
pub enum DbServerType {
    Mysql,
}

/// Configurations for the http server.
pub struct ServerConfig {
    pub url: String,
    pub listen: String,
    pub port: u32,
    pub workers: usize,
}

/// Configurations for user management.
pub struct UserConfig {
    pub disable_sign_up: bool,
}

/// Configurations for the files app.
pub struct FilesConfig {
    pub read_only: bool,
}

/// Configurations for the database connector.
pub struct DatabaseConfig {
    pub server_type: DbServerType,
    pub user: String,
    pub password: String,
    pub address: String,
    pub name: String,
}

/// Configurations for SSL.
pub struct SslConfig {
    pub enabled: bool,
    pub certificate_path: String,
    pub key_path: String,
}

/// Configurations for JWT authentication.
pub struct JwtConfig {
    pub secret: Vec<u8>,
}

impl JwtConfig {
    /// Whether the shared secret meets the minimum length the service
    /// demands at config load; a process finding it violated must not
    /// come up.
    pub fn secret_long_enough(&self) -> (r: bool)
        ensures
            r == (self.secret@.len() >= 32),
    {
        self.secret.len() >= 32
    }
}

/// Collection of all partial configurations.
pub struct AppConfig {
    pub server: ServerConfig,
    pub user: UserConfig,
    pub files: FilesConfig,
    pub database: DatabaseConfig,
    pub ssl: SslConfig,
    pub jwt: JwtConfig,
}

/// The value stored under the first entry carrying this key.
pub open spec fn lookup(s: Seq<(Seq<char>, Seq<char>)>, k: Seq<char>) -> Option<Seq<char>>
    decreases s.len(),
{
    if s.len() == 0 {
        None
    } else if s[0].0 == k {
        Some(s[0].1)
    } else {
        lookup(s.drop_first(), k)
    }
}

/// Whether `c` is a decimal digit.
pub open spec fn is_digit(c: char) -> bool {
    c == '0' || c == '1' || c == '2' || c == '3' || c == '4' || c == '5' || c == '6' || c == '7'
        || c == '8' || c == '9'
}

/// The value of one decimal digit.
pub open spec fn digit_value(c: char) -> int {
    if c == '0' {
        0
    } else if c == '1' {
        1
    } else if c == '2' {
        2
    } else if c == '3' {
        3
    } else if c == '4' {
        4
    } else if c == '5' {
        5
    } else if c == '6' {
        6
    } else if c == '7' {
        7
    } else if c == '8' {
        8
    } else {
        9
    }
}

/// Parses the remaining digits onto an accumulated value; any non-digit
/// or overflow past `u32` spoils the whole parse.
pub open spec fn parse_u32_rec(s: Seq<char>, acc: int) -> Option<int>
    decreases s.len(),
{
    if s.len() == 0 {
        Some(acc)
    } else if !is_digit(s[0]) {
        None
    } else if acc * 10 + digit_value(s[0]) > u32::MAX {
        None
    } else {
        parse_u32_rec(s.drop_first(), acc * 10 + digit_value(s[0]))
    }
}

/// The `u32` a decimal string denotes, if any.
pub open spec fn spec_parse_u32(s: Seq<char>) -> Option<int> {
    if s.len() == 0 {
        None
    } else {
        parse_u32_rec(s, 0)
    }
}

/// The string entry under this key, or the default.
pub open spec fn conf_str(s: Seq<(Seq<char>, Seq<char>)>, k: Seq<char>, d: Seq<char>) -> Seq<
    char,
> {
    match lookup(s, k) {
        Some(v) => v,
        None => d,
    }
}

/// The numeric entry under this key, or the default where the entry is
/// missing or does not parse.
pub open spec fn conf_u32(s: Seq<(Seq<char>, Seq<char>)>, k: Seq<char>, d: u32) -> int {
    match lookup(s, k) {
        Some(v) => match spec_parse_u32(v) {
            Some(n) => n,
            None => d as int,
        },
        None => d as int,
    }
}

/// The boolean entry under this key, or the default where the entry is
/// missing or neither `true` nor `false`.
pub open spec fn conf_bool(s: Seq<(Seq<char>, Seq<char>)>, k: Seq<char>, d: bool) -> bool {
    match lookup(s, k) {
        Some(v) => if v == "true"@ {
            true
        } else if v == "false"@ {
            false
        } else {
            d
        },
        None => d,
    }
}

/// Helper struct to allow easier extraction of config values.
pub struct ConfWrapper {
    entries: Vec<(String, String)>,
}

impl ConfWrapper {
    /// The entries, as key-value pairs in the order given.
    pub closed spec fn view(&self) -> Seq<(Seq<char>, Seq<char>)> {
        self.entries@.map_values(|e: (String, String)| (e.0@, e.1@))
    }

    /// Wraps parsed configuration entries.
    pub fn new(entries: Vec<(String, String)>) -> (r: ConfWrapper)
        ensures
            r@ == entries@.map_values(|e: (String, String)| (e.0@, e.1@)),
    {
        ConfWrapper { entries }
    }

    /// The raw value under `key`, if one was given.
    fn raw(&self, key: &str) -> (r: Option<&String>)
        ensures
            match r {
                Some(v) => lookup(self@, key@) == Some(v@),
                None => lookup(self@, key@) is None,
            },
    {
        let n = self.entries.len();
        let mut i: usize = 0;
        proof {
            assert(self@.skip(0) =~= self@);
        }
        while i < n
            invariant
                n == self.entries@.len(),
                i <= n,
                lookup(self@, key@) == lookup(self@.skip(i as int), key@),
            decreases n - i,
        {
            proof {
                assert(self@.skip(i as int).drop_first() =~= self@.skip(i + 1));
                assert(self@.skip(i as int)[0] == self@[i as int]);
                assert(self@[i as int] == (self.entries@[i as int].0@, self.entries@[i as int].1@));
            }
            if str_eq(self.entries[i].0.as_str(), key) {
                return Some(&self.entries[i].1);
            }
            i += 1;
        }
        proof {
            assert(self@.skip(n as int) =~= Seq::<(Seq<char>, Seq<char>)>::empty());
        }
        None
    }

    /// Get a string from the config or use the default value.
    pub fn get_str(&self, key: &str, default_val: &str) -> (r: String)
        ensures
            r@ == conf_str(self@, key@, default_val@),
    {
        match self.raw(key) {
            Some(v) => v.clone(),
            None => String::from_str(default_val),
        }
    }

    /// Get a number from the config or use the default value.
    pub fn get_u32(&self, key: &str, default_val: u32) -> (r: u32)
        ensures
            r == conf_u32(self@, key@, default_val),
    {
        match self.raw(key) {
            Some(v) => match parse_u32(v.as_str()) {
                Some(n) => n,
                None => default_val,
            },
            None => default_val,
        }
    }

    /// Get a boolean from the config or use the default value.
    pub fn get_bool(&self, key: &str, default_val: bool) -> (r: bool)
        ensures
            r == conf_bool(self@, key@, default_val),
    {
        match self.raw(key) {
            Some(v) => {
                if str_eq(v.as_str(), "true") {
                    true
                } else if str_eq(v.as_str(), "false") {
                    false
                } else {
                    default_val
                }
            },
            None => default_val,
        }
    }
}

/// Decides one digit and hands its value back.
fn digit_of(c: char) -> (r: Option<u32>)
    ensures
        match r {
            Some(v) => is_digit(c) && v == digit_value(c),
            None => !is_digit(c),
        },
{
    match c {
        '0' => Some(0),
        '1' => Some(1),
        '2' => Some(2),
        '3' => Some(3),
        '4' => Some(4),
        '5' => Some(5),
        '6' => Some(6),
        '7' => Some(7),
        '8' => Some(8),
        '9' => Some(9),
        _ => None,
    }
}

/// Parses a decimal string into a `u32`.
pub fn parse_u32(s: &str) -> (r: Option<u32>)
    ensures
        match r {
            Some(v) => spec_parse_u32(s@) == Some(v as int),
            None => spec_parse_u32(s@) is None,
        },
{
    let n = s.unicode_len();
    if n == 0 {
        return None;
    }
    let mut acc: u32 = 0;
    let mut i: usize = 0;
    proof {
        assert(s@.skip(0) =~= s@);
    }
    while i < n
        invariant
            n == s@.len(),
            i <= n,
            parse_u32_rec(s@, 0) == parse_u32_rec(s@.skip(i as int), acc as int),
        decreases n - i,
    {
        let ghost rem = s@.skip(i as int);
        proof {
            assert(rem.drop_first() =~= s@.skip(i + 1));
            assert(rem[0] == s@[i as int]);
        }
        let c = s.get_char(i);
        let d = match digit_of(c) {
            Some(d) => d,
            None => {
                return None;
            },
        };
        if acc > (u32::MAX - d) / 10 {
            proof {
                assert(acc * 10 + d > u32::MAX) by (nonlinear_arith)
                    requires
                        acc > (u32::MAX - d) / 10,
                        d < 10,
                        acc <= u32::MAX,
                ;
            }
            return None;
        }
        proof {
            assert(acc * 10 + d <= u32::MAX) by (nonlinear_arith)
                requires
                    acc <= (u32::MAX - d) / 10,
                    d < 10,
            ;
        }
        acc = acc * 10 + d;
        i += 1;
    }
    proof {
        assert(s@.skip(n as int) =~= Seq::<char>::empty());
    }
    Some(acc)
}

/// Converts raw configuration entries into an `AppConfig` struct; every
/// missing entry falls back to its default, and the caller supplies the
/// already loaded or freshly generated JWT secret bytes.
pub fn load_config(config: &ConfWrapper, jwt_secret: Vec<u8>) -> (r: AppConfig)
    ensures
        r.server.url@ == conf_str(config@, "server.url"@, "127.0.0.1"@),
        r.server.listen@ == conf_str(config@, "server.listen"@, "127.0.0.1"@),
        r.server.port == conf_u32(config@, "server.port"@, 8080),
        r.server.workers == conf_u32(config@, "server.workers"@, 1),
        r.user.disable_sign_up == conf_bool(config@, "user.disable_sign_up"@, true),
        r.files.read_only == conf_bool(config@, "files.read_only"@, true),
        r.database.server_type == DbServerType::Mysql,
        r.database.user@ == conf_str(config@, "database.user"@, "triox"@),
        r.database.password@ == conf_str(config@, "database.password"@, "triox"@),
        r.database.address@ == conf_str(config@, "database.address"@, "localhost"@),
        r.database.name@ == conf_str(config@, "database.name"@, "triox"@),
        r.ssl.enabled == conf_bool(config@, "ssl.enabled"@, true),
        r.ssl.certificate_path@ == conf_str(config@, "ssl.certificate"@, "ssl/cert.pem"@),
        r.ssl.key_path@ == conf_str(config@, "ssl.key"@, "ssl/key.pem"@),
        r.jwt.secret == jwt_secret,
{
    AppConfig {
        server: ServerConfig {
            url: config.get_str("server.url", "127.0.0.1"),
            listen: config.get_str("server.listen", "127.0.0.1"),
            port: config.get_u32("server.port", 8080),
            workers: config.get_u32("server.workers", 1) as usize,
        },
        user: UserConfig { disable_sign_up: config.get_bool("user.disable_sign_up", true) },
        files: FilesConfig { read_only: config.get_bool("files.read_only", true) },
        database: DatabaseConfig {
            server_type: DbServerType::Mysql,
            user: config.get_str("database.user", "triox"),
            password: config.get_str("database.password", "triox"),
            address: config.get_str("database.address", "localhost"),
            name: config.get_str("database.name", "triox"),
        },
        ssl: SslConfig {
            enabled: config.get_bool("ssl.enabled", true),
            certificate_path: config.get_str("ssl.certificate", "ssl/cert.pem"),
            key_path: config.get_str("ssl.key", "ssl/key.pem"),
        },
        jwt: JwtConfig { secret: jwt_secret },
    }
}

impl ServerConfig {
    /// Builds the server address from the config parameters.
    pub fn listen_address(&self) -> (r: String)
        ensures
            r@ == self.listen@ + ":"@ + crate::strutil::decimal_spec(self.port as int),
    {
        String::from_str(self.listen.as_str()).concat(":").concat(
            crate::strutil::u32_to_string(self.port).as_str(),
        )
    }
}

impl DatabaseConfig {
    /// Builds the database url from the config parameters.
    pub fn url(&self) -> (r: String)
        ensures
            r@ == "mysql://"@ + self.user@ + ":"@ + self.password@ + "@"@ + self.address@ + "/"@
                + self.name@,
    {
        String::from_str("mysql://").concat(self.user.as_str()).concat(":").concat(
            self.password.as_str(),
        ).concat("@").concat(self.address.as_str()).concat("/").concat(self.name.as_str())
    }
}

} // verus!
