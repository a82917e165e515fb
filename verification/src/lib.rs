//! Client-side authentication and session layer for the Max platform CLI.
//!
//! The crate centres on three components: a credential store holding one
//! serialized token record, a transport client configuration validated at
//! construction, and a session manager that orchestrates login, expiry
//! evaluation and logout.

pub mod auth;
pub mod cli;
pub mod codec;
pub mod config;
pub mod error;
pub mod formatting;
pub mod http;
pub mod numeral;
pub mod store;
pub mod validation;

pub use auth::AuthClient;
pub use config::Config;
pub use error::RigError;
pub use http::HttpClient;
