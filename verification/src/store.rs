//! The credential store: one fixed slot holding the serialized token
//! record. The slot models the value at rest in the platform secret
//! store; whoever bridges to that store reads the slot out after every
//! mutation and writes it back before every read.

use vstd::prelude::*;
use vstd::string::*;

use crate::auth::AuthToken;
use crate::codec::{token_rec_dec, token_rec_enc, encode_token_record, decode_token_record};
use crate::error::RigError;

verus! {

/// The single slot of the credential store, holding the serialized
/// token record if a login has succeeded and nothing has cleared it.
pub struct CredentialStore {
    slot: Option<String>,
}

impl View for CredentialStore {
    type V = Option<Seq<char>>;

    closed spec fn view(&self) -> Option<Seq<char>> {
        match self.slot {
            Some(s) => Some(s@),
            None => None,
        }
    }
}

impl CredentialStore {
    /// An empty store: no record at rest.
    pub fn new() -> (r: CredentialStore)
        ensures
            r@ is None,
    {
        CredentialStore { slot: None }
    }

    /// Wraps whatever value is at rest in the underlying secret store.
    pub fn from_raw(raw: Option<String>) -> (r: CredentialStore)
        ensures
            match raw {
                Some(s) => r@ == Some(s@),
                None => r@ is None,
            },
    {
        CredentialStore { slot: raw }
    }

    /// The value at rest, for bridging back to the underlying secret
    /// store.
    pub fn raw(&self) -> (r: &Option<String>)
        ensures
            match r {
                Some(s) => self@ == Some(s@),
                None => self@ is None,
            },
    {
        &self.slot
    }

    /// Serializes `record` and writes it to the slot, overwriting any
    /// previous value.
    pub fn put(&mut self, record: &AuthToken) -> (r: Result<(), RigError>)
        ensures
            r is Ok,
            final(self)@ == Some(token_rec_enc(record.token@, record.expires_at)),
    {
        let encoded = encode_token_record(record.token.as_str(), record.expires_at);
        self.slot = Some(encoded);
        Ok(())
    }

    /// Reads the slot: no value means no record; a value that does not
    /// decode is a serialization error, never a silent "no record".
    pub fn get(&self) -> (r: Result<Option<AuthToken>, RigError>)
        ensures
            match self@ {
                None => r is Ok && r->Ok_0 is None,
                Some(s) => match token_rec_dec(s) {
                    Some(rec) => r is Ok && r->Ok_0 is Some && r->Ok_0->Some_0.token@ == rec.0
                        && r->Ok_0->Some_0.expires_at == rec.1,
                    None => r is Err && r->Err_0 is Serialization && r->Err_0->Serialization_0@
                        == "stored token record is not a valid token object"@,
                },
            },
    {
        match &self.slot {
            None => Ok(None),
            Some(s) => match decode_token_record(s.as_str()) {
                Some((token, expires_at)) => Ok(Some(AuthToken { token, expires_at })),
                None => Err(
                    RigError::Serialization(
                        String::from_str("stored token record is not a valid token object"),
                    ),
                ),
            },
        }
    }

    /// Clears the slot; clearing an already-empty slot succeeds.
    pub fn delete(&mut self) -> (r: Result<(), RigError>)
        ensures
            r is Ok,
            final(self)@ is None,
    {
        self.slot = None;
        Ok(())
    }

    /// A record written through `put` is read back by `get` exactly,
    /// token text and expiry alike, including an absent expiry.
    pub proof fn lemma_put_get_roundtrip(token: Seq<char>, expires_at: Option<u64>)
        ensures
            token_rec_dec(token_rec_enc(token, expires_at)) == Some((token, expires_at)),
    {
        crate::codec::lemma_token_roundtrip(token, expires_at);
    }

    /// A slot value that is not the encoding of any record is refused by
    /// `get` as a serialization error, never reported as "no record".
    pub proof fn lemma_malformed_slot_rejected(s: Seq<char>)
        requires
            !(exists|token: Seq<char>, expires_at: Option<u64>|
                s == #[trigger] token_rec_enc(token, expires_at)),
        ensures
            token_rec_dec(s) is None,
    {
        if token_rec_dec(s) is Some {
            crate::codec::lemma_token_dec_sound(s);
            let (token, expires_at) = token_rec_dec(s)->Some_0;
            assert(s == token_rec_enc(token, expires_at));
        }
    }
}

} // verus!
