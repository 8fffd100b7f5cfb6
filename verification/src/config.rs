//! Settings of the server process.

use vstd::prelude::*;

verus! {

/// The server's settings. A field that a settings file leaves out takes its
/// value from [`Config::default`].
pub struct Config {
    pub name: String,
    pub debug: bool,
    pub locale: String,
    pub ip: String,
    pub port: u16,
}

impl Default for Config {
    fn default() -> (config: Self)
        ensures
            config.name@ == "Latifa"@,
            !config.debug,
            config.locale@ == "en"@,
            config.ip@ == "0.0.0.0"@,
            config.port == 31921,
    {
        Self {
            name: "Latifa".to_string(),
            debug: false,
            locale: "en".to_string(),
            ip: "0.0.0.0".to_string(),
            port: 31921,
        }
    }
}

} // verus!
