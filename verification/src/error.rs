//! The error taxonomy of the library.
//!
//! Every failure a caller can observe carries its distinguishing kind:
//! transport trouble is not an authentication rejection, and a broken
//! stored record is never downgraded to "not authenticated".

use vstd::prelude::*;

verus! {

/// The error type shared by every fallible operation of the library.
#[derive(Debug, Clone)]
pub enum RigError {
    /// An HTTP request failed at the transport level (DNS, TLS, timeout).
    Http(String),
    /// A WebSocket operation failed.
    WebSocket(String),
    /// Data that should be well-formed JSON was not, at rest or on the wire.
    Serialization(String),
    /// A configuration source could not be read or deserialized.
    Config(String),
    /// The credential exchange was rejected (non-success HTTP status).
    Auth(String),
    /// The platform secret store was unreachable or denied the request.
    Keyring(String),
    /// An I/O operation failed.
    Io(String),
    /// A string did not parse as a valid URL.
    InvalidUrl(String),
    /// Any other failure.
    Generic(String),
}

impl RigError {
    /// Builds an authentication-rejection error.
    pub fn auth(msg: String) -> (r: RigError)
        ensures
            r is Auth,
            r->Auth_0@ == msg@,
    {
        RigError::Auth(msg)
    }

    /// Builds a generic error.
    pub fn generic(msg: String) -> (r: RigError)
        ensures
            r is Generic,
            r->Generic_0@ == msg@,
    {
        RigError::Generic(msg)
    }

    /// The human-readable message carried by this error.
    pub fn message(&self) -> (r: &String)
        ensures
            r@ == match self {
                RigError::Http(m) => m@,
                RigError::WebSocket(m) => m@,
                RigError::Serialization(m) => m@,
                RigError::Config(m) => m@,
                RigError::Auth(m) => m@,
                RigError::Keyring(m) => m@,
                RigError::Io(m) => m@,
                RigError::InvalidUrl(m) => m@,
                RigError::Generic(m) => m@,
            },
    {
        match self {
            RigError::Http(m) => m,
            RigError::WebSocket(m) => m,
            RigError::Serialization(m) => m,
            RigError::Config(m) => m,
            RigError::Auth(m) => m,
            RigError::Keyring(m) => m,
            RigError::Io(m) => m,
            RigError::InvalidUrl(m) => m,
            RigError::Generic(m) => m,
        }
    }
}

} // verus!
