//! The transport client configuration: a base endpoint validated at
//! construction, the request timeout and the retry budget, plus the pure
//! halves of the credential exchange — building the request body and
//! interpreting the response.

use vstd::prelude::*;
use vstd::string::*;

use crate::codec::{auth_req_enc, auth_resp_dec, decode_auth_response, encode_auth_request};
use crate::error::RigError;

verus! {

/// Whether `url::Url::parse` accepts the text; the outcome depends on
/// the text alone.
pub uninterp spec fn url_parses(s: Seq<char>) -> bool;

/// Relies on url::Url::parse: returns whether the text is a valid
/// absolute URL, and the parser's message when it is not.
#[verifier::external_body]
fn parse_url_check(s: &str) -> (r: Result<(), String>)
    ensures
        r is Ok <==> url_parses(s@),
{
    match url::Url::parse(s) {
        Ok(_) => Ok(()),
        Err(e) => Err(e.to_string()),
    }
}

/// True of the HTTP status codes that count as success.
pub open spec fn http_success(status: u16) -> bool {
    200 <= status < 300
}

/// The message carried by an authentication rejection: the fixed prefix
/// followed by the decimal status code.
pub open spec fn auth_fail_msg(status: u16) -> Seq<char> {
    "Authentication failed with status: "@ + crate::numeral::dec_rep(status as nat)
}

/// The body of a credential-exchange request.
#[derive(Debug, Clone)]
pub struct AuthRequest {
    pub username: String,
    pub password: String,
}

/// A credential-exchange response as it arrives on the wire: the bearer
/// token and an optional expiry, still in its textual form.
#[derive(Debug, Clone)]
pub struct AuthResponse {
    pub token: String,
    pub expires_at: Option<String>,
}

impl AuthRequest {
    /// Writes this request as its JSON wire form.
    pub fn to_json(&self) -> (r: String)
        ensures
            r@ == auth_req_enc(self.username@, self.password@),
    {
        encode_auth_request(self.username.as_str(), self.password.as_str())
    }
}

/// A configured HTTP client bound to a base endpoint. Construction
/// validates the endpoint; the network calls themselves live outside the
/// library and consume this configuration.
#[derive(Debug, Clone)]
pub struct HttpClient {
    pub base_url: String,
    pub timeout_secs: u64,
    pub retry_attempts: u32,
}

impl HttpClient {
    /// Builds a client bound to `base_url`, failing fast when the text is
    /// not a valid absolute URL.
    pub fn new(base_url: &str, timeout_secs: u64, retry_attempts: u32) -> (r: Result<
        HttpClient,
        RigError,
    >)
        ensures
            r is Ok <==> url_parses(base_url@),
            r is Ok ==> r->Ok_0.base_url@ == base_url@ && r->Ok_0.timeout_secs == timeout_secs
                && r->Ok_0.retry_attempts == retry_attempts,
            r is Err ==> r->Err_0 is InvalidUrl,
    {
        match parse_url_check(base_url) {
            Ok(()) => Ok(
                HttpClient {
                    base_url: String::from_str(base_url),
                    timeout_secs,
                    retry_attempts,
                },
            ),
            Err(m) => Err(RigError::InvalidUrl(m)),
        }
    }

    /// Interprets the outcome of a credential exchange: any non-success
    /// status is an authentication rejection carrying the status code;
    /// a success status with an unreadable body is a serialization
    /// error; otherwise the parsed response is returned.
    pub fn interpret_exchange(&self, status: u16, body: &str) -> (r: Result<AuthResponse, RigError>)
        ensures
            r is Ok <==> (http_success(status) && auth_resp_dec(body@) is Some),
            !http_success(status) ==> r is Err && r->Err_0 is Auth && r->Err_0->Auth_0@
                == auth_fail_msg(status),
            http_success(status) && auth_resp_dec(body@) is None ==> r is Err && r->Err_0
                is Serialization && r->Err_0->Serialization_0@
                == "credential exchange response is not a valid token object"@,
            r is Ok ==> r->Ok_0.token@ == auth_resp_dec(body@)->Some_0.0 && (match (
                r->Ok_0.expires_at,
                auth_resp_dec(body@)->Some_0.1,
            ) {
                (Some(ps), Some(qs)) => ps@ == qs,
                (None, None) => true,
                _ => false,
            }),
    {
        if status < 200 || status >= 300 {
            let mut msg = String::new();
            msg.append("Authentication failed with status: ");
            let code = crate::numeral::u64_to_string(status as u64);
            msg.append(code.as_str());
            assert(msg@ =~= auth_fail_msg(status));
            return Err(RigError::auth(msg));
        }
        match decode_auth_response(body) {
            Some((token, expires_at)) => Ok(AuthResponse { token, expires_at }),
            None => Err(
                RigError::Serialization(
                    String::from_str("credential exchange response is not a valid token object"),
                ),
            ),
        }
    }
}

} // verus!
