//! The session manager: login writes a token record through the store,
//! authentication checks read it back and lazily purge an expired
//! record, and logout clears it. Every transition is pinned to a
//! spec-level function of the store slot, so the session laws are proved
//! once over those functions.

use vstd::prelude::*;

use crate::codec::{auth_resp_dec, token_rec_dec, token_rec_enc};
use crate::error::RigError;
use crate::http::{http_success, AuthResponse, HttpClient};
use crate::numeral::parse_u64_spec;
use crate::store::CredentialStore;

verus! {

/// The one persisted entity: the bearer token and the moment, in epoch
/// seconds, after which it no longer counts; no moment means the token
/// does not expire.
#[derive(Debug, Clone)]
pub struct AuthToken {
    pub token: String,
    pub expires_at: Option<u64>,
}

impl AuthToken {
    /// True at every instant from `expires_at` on; never true for a
    /// token without an expiry.
    pub fn is_expired_at(&self, now: u64) -> (r: bool)
        ensures
            r == match self.expires_at {
                Some(e) => now >= e,
                None => false,
            },
    {
        match self.expires_at {
            Some(e) => now >= e,
            None => false,
        }
    }
}

/// The expiry a wire response denotes: its expiry text read as decimal
/// epoch seconds, or nothing when the text is absent or unreadable.
pub open spec fn wire_expiry(expires_at: Option<Seq<char>>) -> Option<u64> {
    match expires_at {
        Some(es) => parse_u64_spec(es),
        None => None,
    }
}

/// The store slot after a login observes the given exchange outcome: a
/// successful, readable exchange writes the new record; anything else
/// leaves the slot alone.
pub open spec fn login_slot(slot: Option<Seq<char>>, status: u16, body: Seq<char>) -> Option<
    Seq<char>,
> {
    if http_success(status) && auth_resp_dec(body) is Some {
        Some(
            token_rec_enc(auth_resp_dec(body)->Some_0.0, wire_expiry(auth_resp_dec(body)->Some_0.1)),
        )
    } else {
        slot
    }
}

/// The store slot after an authentication check at instant `now`: an
/// expired record is purged, everything else is left alone.
pub open spec fn check_slot(slot: Option<Seq<char>>, now: u64) -> Option<Seq<char>> {
    match slot {
        None => None,
        Some(s) => match token_rec_dec(s) {
            None => slot,
            Some(rec) => match rec.1 {
                Some(e) => if now >= e {
                    None
                } else {
                    slot
                },
                None => slot,
            },
        },
    }
}

/// Whether an authentication check at instant `now` reports a live
/// session: a readable record that has not expired.
pub open spec fn check_value(slot: Option<Seq<char>>, now: u64) -> bool {
    match slot {
        None => false,
        Some(s) => match token_rec_dec(s) {
            None => false,
            Some(rec) => match rec.1 {
                Some(e) => now < e,
                None => true,
            },
        },
    }
}

/// Whether an authentication check succeeds at all: it fails only on a
/// present record that does not decode.
pub open spec fn check_ok(slot: Option<Seq<char>>) -> bool {
    match slot {
        None => true,
        Some(s) => token_rec_dec(s) is Some,
    }
}

/// The store slot after a logout: always empty.
pub open spec fn logout_slot(slot: Option<Seq<char>>) -> Option<Seq<char>> {
    None
}

/// The session manager: a transport configuration and the credential
/// store it reads and writes.
pub struct AuthClient {
    pub http_client: HttpClient,
    pub store: CredentialStore,
}

impl AuthClient {
    /// Builds a session manager over an empty store.
    pub fn new(http_client: HttpClient) -> (r: Result<AuthClient, RigError>)
        ensures
            r is Ok,
            r->Ok_0.http_client == http_client,
            r->Ok_0.store@ is None,
    {
        Ok(AuthClient { http_client, store: CredentialStore::new() })
    }

    /// Builds a session manager over a store carrying whatever is at
    /// rest.
    pub fn with_store(http_client: HttpClient, store: CredentialStore) -> (r: AuthClient)
        ensures
            r.http_client == http_client,
            r.store == store,
    {
        AuthClient { http_client, store }
    }

    /// Completes a login from the observed exchange outcome: on a
    /// successful, readable exchange the new record is written through
    /// the store; on any failure the store is untouched and the error
    /// keeps its kind.
    pub fn login_with_response(&mut self, status: u16, body: &str) -> (r: Result<(), RigError>)
        ensures
            final(self).http_client == old(self).http_client,
            final(self).store@ == login_slot(old(self).store@, status, body@),
            r is Ok <==> (http_success(status) && auth_resp_dec(body@) is Some),
            !http_success(status) ==> r is Err && r->Err_0 is Auth && r->Err_0->Auth_0@
                == crate::http::auth_fail_msg(status),
            http_success(status) && auth_resp_dec(body@) is None ==> r is Err && r->Err_0
                is Serialization && r->Err_0->Serialization_0@
                == "credential exchange response is not a valid token object"@,
    {
        let response = match self.http_client.interpret_exchange(status, body) {
            Ok(resp) => resp,
            Err(e) => {
                return Err(e);
            },
        };
        let expires_at: Option<u64> = match &response.expires_at {
            Some(es) => crate::numeral::parse_u64(es.as_str()),
            None => None,
        };
        let record = AuthToken { token: response.token, expires_at };
        match self.store.put(&record) {
            Ok(()) => Ok(()),
            Err(e) => Err(e),
        }
    }

    /// Reads the current token record through the store, purging it
    /// first when its expiry has passed: an absent record is no error,
    /// an unreadable one is.
    pub fn get_token(&mut self, now: u64) -> (r: Result<Option<AuthToken>, RigError>)
        ensures
            final(self).http_client == old(self).http_client,
            final(self).store@ == check_slot(old(self).store@, now),
            match old(self).store@ {
                None => r is Ok && r->Ok_0 is None,
                Some(s) => match token_rec_dec(s) {
                    None => r is Err && r->Err_0 is Serialization && r->Err_0->Serialization_0@
                        == "stored token record is not a valid token object"@,
                    Some(rec) => match rec.1 {
                        Some(e) => if now >= e {
                            r is Ok && r->Ok_0 is None
                        } else {
                            r is Ok && r->Ok_0 is Some && r->Ok_0->Some_0.token@ == rec.0
                                && r->Ok_0->Some_0.expires_at == rec.1
                        },
                        None => r is Ok && r->Ok_0 is Some && r->Ok_0->Some_0.token@ == rec.0
                            && r->Ok_0->Some_0.expires_at is None,
                    },
                },
            },
    {
        let got = match self.store.get() {
            Ok(v) => v,
            Err(e) => {
                return Err(e);
            },
        };
        match got {
            None => Ok(None),
            Some(record) => {
                if record.is_expired_at(now) {
                    match self.store.delete() {
                        Ok(()) => Ok(None),
                        Err(e) => Err(e),
                    }
                } else {
                    Ok(Some(record))
                }
            },
        }
    }

    /// Whether a live session exists at instant `now`; checking may
    /// clear an expired record, and a store that cannot be read is an
    /// error, never a silent "not authenticated".
    pub fn is_authenticated(&mut self, now: u64) -> (r: Result<bool, RigError>)
        ensures
            final(self).http_client == old(self).http_client,
            final(self).store@ == check_slot(old(self).store@, now),
            r is Ok <==> check_ok(old(self).store@),
            r is Ok ==> r->Ok_0 == check_value(old(self).store@, now),
            r is Err ==> r->Err_0 is Serialization && r->Err_0->Serialization_0@
                == "stored token record is not a valid token object"@,
    {
        match self.get_token(now) {
            Ok(Some(_)) => Ok(true),
            Ok(None) => Ok(false),
            Err(e) => Err(e),
        }
    }

    /// Ends the session: the store is left empty, and logging out of an
    /// already-empty store succeeds the same way.
    pub fn logout(&mut self) -> (r: Result<(), RigError>)
        ensures
            final(self).http_client == old(self).http_client,
            final(self).store@ == logout_slot(old(self).store@),
            r is Ok,
    {
        match self.store.delete() {
            Ok(()) => Ok(()),
            Err(e) => Err(e),
        }
    }
}

/// A login that succeeds yields a session that an immediate
/// authentication check reports live, for any instant before the
/// record's expiry and for any instant at all when it has none.
pub proof fn lemma_login_then_authenticated(
    slot: Option<Seq<char>>,
    status: u16,
    body: Seq<char>,
    now: u64,
)
    requires
        http_success(status),
        auth_resp_dec(body) is Some,
        match wire_expiry(auth_resp_dec(body)->Some_0.1) {
            Some(e) => now < e,
            None => true,
        },
    ensures
        check_ok(login_slot(slot, status, body)),
        check_value(login_slot(slot, status, body), now),
{
    let tok = auth_resp_dec(body)->Some_0.0;
    let exp = wire_expiry(auth_resp_dec(body)->Some_0.1);
    crate::codec::lemma_token_roundtrip(tok, exp);
}

/// A record whose expiry has passed makes the check report no session
/// and leaves the store empty: the purge is observable through the
/// store.
pub proof fn lemma_expired_record_purged(token: Seq<char>, e: u64, now: u64)
    requires
        now >= e,
    ensures
        !check_value(Some(token_rec_enc(token, Some(e))), now),
        check_slot(Some(token_rec_enc(token, Some(e))), now) is None,
{
    crate::codec::lemma_token_roundtrip(token, Some(e));
}

/// Logging out is idempotent: a second logout, or one from an
/// already-empty store, ends in the same empty store, and the operation
/// itself never errs.
pub proof fn lemma_logout_idempotent(slot: Option<Seq<char>>)
    ensures
        logout_slot(logout_slot(slot)) == logout_slot(slot),
        logout_slot(slot) is None,
{
}

/// A rejected exchange changes nothing: the store after a failed login
/// is exactly the store before it.
pub proof fn lemma_rejected_login_unchanged(slot: Option<Seq<char>>, status: u16, body: Seq<char>)
    requires
        !http_success(status),
    ensures
        login_slot(slot, status, body) == slot,
{
}

} // verus!
