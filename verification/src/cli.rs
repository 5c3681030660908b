//! Command-line options: the configuration directory and the default
//! log level. Argument parsing happens outside; the decisions on the
//! parsed values are taken here.

use vstd::prelude::*;
use crate::strutil::str_eq;

verus! {

/// The options the process starts with.
pub struct Options {
    pub config_dir: String,
    pub log_level: String,
}

/// The log levels that are accepted on the command line.
pub open spec fn valid_log_level(s: Seq<char>) -> bool {
    s == "warn"@ || s == "trace"@ || s == "debug"@ || s == "error"@ || s == "info"@
}

impl Default for Options {
    /// The defaults: configuration under `config`, log level `info`.
    fn default() -> (r: Options)
        ensures
            r.config_dir@ == "config"@,
            r.log_level@ == "info"@,
    {
        Options { config_dir: String::from_str("config"), log_level: String::from_str("info") }
    }
}

impl Options {
    /// Applies the parsed command-line values onto the defaults: a given
    /// configuration directory always wins, a given log level only when
    /// it names a level that exists.
    pub fn new(config_dir: Option<&str>, log_level: Option<&str>) -> (r: Options)
        ensures
            r.config_dir@ == match config_dir {
                Some(c) => c@,
                None => "config"@,
            },
            r.log_level@ == match log_level {
                Some(l) => if valid_log_level(l@) {
                    l@
                } else {
                    "info"@
                },
                None => "info"@,
            },
    {
        let mut options = Options::default();
        if let Some(config_dir) = config_dir {
            options.config_dir = String::from_str(config_dir);
        }
        if let Some(log_level) = log_level {
            let valid = str_eq(log_level, "warn") || str_eq(log_level, "trace") || str_eq(
                log_level,
                "debug",
            ) || str_eq(log_level, "error") || str_eq(log_level, "info");
            if valid {
                options.log_level = String::from_str(log_level);
            }
        }
        options
    }
}

} // verus!
