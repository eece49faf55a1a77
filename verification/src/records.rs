//! The data model: token records, payloads, issuance and validation results,
//! and the error taxonomy.

use vstd::prelude::*;

verus! {

/// The payload carried by a session token. The manager stores and returns it
/// verbatim; the only part it ever inspects is the user identifier, which
/// keys bulk revocation.
#[derive(Debug)]
pub struct TokenPayload {
    /// Identifier of the user the session belongs to.
    pub user_id: i32,
    /// The rest of the payload (for instance serialized claims), opaque to
    /// the manager.
    pub data: String,
}

/// One stored session record: the unit of state the store persists.
#[derive(Debug)]
pub struct TokenRecord {
    /// Opaque unguessable identifier; the store's primary key.
    pub token: String,
    /// The payload handed over at issuance, returned verbatim.
    pub payload: TokenPayload,
    /// Unix timestamp, in seconds, of creation or last renewal.
    pub modified_at: i64,
}

/// Mathematical content of one stored record, minus its key.
pub ghost struct TokenData {
    pub user_id: int,
    pub data: Seq<char>,
    pub modified_at: int,
}

/// The mathematical state of a token store: a finite map from token values
/// to record contents.
pub type StoreModel = Map<Seq<char>, TokenData>;

impl TokenPayload {
    /// Mathematical content of the payload, folded into a record's data.
    pub open spec fn data_model(&self, modified_at: int) -> TokenData {
        TokenData { user_id: self.user_id as int, data: self.data@, modified_at }
    }
}

impl Clone for TokenPayload {
    fn clone(&self) -> (r: Self)
        ensures
            r.user_id == self.user_id,
            r.data@ == self.data@,
    {
        TokenPayload { user_id: self.user_id, data: self.data.clone() }
    }
}

impl TokenRecord {
    /// The store key of this record.
    pub open spec fn key(&self) -> Seq<char> {
        self.token@
    }
}

impl View for TokenRecord {
    type V = TokenData;

    open spec fn view(&self) -> TokenData {
        TokenData {
            user_id: self.payload.user_id as int,
            data: self.payload.data@,
            modified_at: self.modified_at as int,
        }
    }
}

impl Clone for TokenRecord {
    fn clone(&self) -> (r: Self)
        ensures
            r.key() == self.key(),
            r@ == self@,
            r.modified_at == self.modified_at,
    {
        TokenRecord {
            token: self.token.clone(),
            payload: self.payload.clone(),
            modified_at: self.modified_at,
        }
    }
}

/// A persistence failure, distinct from the lifecycle outcomes.
#[derive(Clone, Copy, Debug, PartialEq, Eq, Structural)]
pub enum StoreError {
    /// An insert hit an already-present token value.
    Conflict,
    /// The backing store could not be reached or failed mid-operation.
    /// The embedded store never raises it; external backends map their
    /// connectivity failures onto it.
    Unavailable,
}

/// Why a validation did not return a live record.
#[derive(Clone, Copy, Debug, PartialEq, Eq, Structural)]
pub enum TokenError {
    /// The token was never issued, was revoked, or was already swept.
    NotFound,
    /// The token existed but had aged past its time-to-live.
    Expired,
    /// The store failed; the failure is passed through unchanged.
    Store(StoreError),
}

/// What `issue_token` hands back: the fresh token and its expiry time.
#[derive(Debug)]
pub struct TokenIssue {
    /// The opaque token value, a 64-digit lowercase hex string.
    pub token: String,
    /// Unix timestamp, in seconds, past which the token expires unless
    /// renewed.
    pub expires_at: i64,
}

/// What a successful validation hands back.
#[derive(Debug)]
pub struct TokenValidation {
    /// The record as adopted by the validation, payload verbatim.
    pub record: TokenRecord,
    /// Whether this call's own renewal moved `modified_at` forward.
    pub renewed: bool,
    /// Unix timestamp, in seconds, past which the adopted record expires.
    pub expires_at: i64,
}

} // verus!
