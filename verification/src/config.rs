//! The configuration consumed at construction time: connection settings
//! and rendering defaults, with the stock values used when no file is
//! given.

use vstd::prelude::*;
use vstd::string::*;

verus! {

/// Connection settings for the transport client.
#[derive(Debug, Clone)]
pub struct ConnectionConfig {
    pub base_url: String,
    pub websocket_url: String,
    pub timeout: u64,
    pub retry_attempts: u32,
}

/// Default rendering and behaviour choices.
#[derive(Debug, Clone)]
pub struct DefaultsConfig {
    pub output_format: String,
    pub log_level: String,
    pub auto_connect: bool,
    pub follow_logs: bool,
}

/// The whole configuration.
#[derive(Debug, Clone)]
pub struct Config {
    pub connection: ConnectionConfig,
    pub defaults: DefaultsConfig,
}

impl core::default::Default for Config {
    /// The stock configuration: the public endpoint, a thirty-second
    /// timeout, three retries, and table output at info-level logging.
    fn default() -> (r: Config)
        ensures
            r.connection.base_url@ == "https://api.max.dev"@,
            r.connection.websocket_url@ == "wss://api.max.dev/socket/websocket"@,
            r.connection.timeout == 30,
            r.connection.retry_attempts == 3,
            r.defaults.output_format@ == "table"@,
            r.defaults.log_level@ == "info"@,
            r.defaults.auto_connect,
            !r.defaults.follow_logs,
    {
        Config {
            connection: ConnectionConfig {
                base_url: String::from_str("https://api.max.dev"),
                websocket_url: String::from_str("wss://api.max.dev/socket/websocket"),
                timeout: 30,
                retry_attempts: 3,
            },
            defaults: DefaultsConfig {
                output_format: String::from_str("table"),
                log_level: String::from_str("info"),
                auto_connect: true,
                follow_logs: false,
            },
        }
    }
}

} // verus!
