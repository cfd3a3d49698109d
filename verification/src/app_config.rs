use vstd::prelude::*;

verus! {

/// The settings the service starts with: the port it listens on and the
/// address of its database.
#[derive(Debug, Clone)]
pub struct AppConfig {
    pub port: usize,
    pub database_url: String,
}

impl AppConfig {
    /// Assembles the settings from the values read out of the configuration
    /// source: `application.port` as an integer and `database.url` as text.
    /// The port is converted to `usize` as Rust's `as` does.
    pub fn from_settings(port: i64, database_url: String) -> (config: AppConfig)
        ensures
            config.port == port as usize,
            config.database_url@ == database_url@,
    {
        AppConfig { port: port as usize, database_url }
    }

    /// The port, cut down to 16 bits as Rust's `as u16` does.
    pub fn get_port(&self) -> (port: u16)
        ensures
            port as int == self.port as int % 0x10000,
    {
        (self.port % 0x10000) as u16
    }

    /// The address of the database.
    pub fn get_database_url(&self) -> (url: &str)
        ensures
            url@ == self.database_url@,
    {
        self.database_url.as_str()
    }
}

impl Default for AppConfig {
    fn default() -> (config: AppConfig)
        ensures
            config.port == 0,
            config.database_url@ == Seq::<char>::empty(),
    {
        AppConfig { port: 0, database_url: String::new() }
    }
}

} // verus!
