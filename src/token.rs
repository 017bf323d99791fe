//! Plain values of the token server: its request payload for a bare token,
//! its failures, and the report of a purge of expired tokens.
use vstd::prelude::*;
use vstd::string::StringExecFns;
use crate::text::push_decimal;
use crate::text::decimal;

verus! {

/// A request that names a token only.
pub struct TokenOnlyPayload {
    pub token: String,
}

/// The token store's lock could not be taken.
#[derive(Debug, Clone, Copy, PartialEq, Eq)]
pub struct RwLockNotAcquired;

impl RwLockNotAcquired {
    /// The text shown to clients.
    pub fn message(&self) -> (r: &'static str)
        ensures
            r@ == "InternalServerError"@,
    {
        "InternalServerError"
    }

    /// The text written to the server log.
    pub fn detail(&self) -> (r: &'static str)
        ensures
            r@ == "could not acquire read/write lock"@,
    {
        "could not acquire read/write lock"
    }
}

/// Why a token could not be created.
#[derive(Debug, Clone, Copy, PartialEq, Eq)]
pub enum TokenCreateFailed {
    MetaDataMustBeJsonObject,
    RwLockNotAcquired,
}

impl TokenCreateFailed {
    /// The text that describes this failure.
    pub fn message(&self) -> (r: &'static str)
        ensures
            r@ == match self {
                TokenCreateFailed::MetaDataMustBeJsonObject => "metadata must be a JSON object"@,
                TokenCreateFailed::RwLockNotAcquired => "InternalServerError"@,
            },
    {
        match self {
            TokenCreateFailed::MetaDataMustBeJsonObject => "metadata must be a JSON object",
            TokenCreateFailed::RwLockNotAcquired => "InternalServerError",
        }
    }
}

/// Why a token could not be updated.
#[derive(Debug, Clone, Copy, PartialEq, Eq)]
pub enum TokenUpdateFailed {
    InvalidToken,
    RwLockNotAcquired,
    MustNeverOccur,
}

impl TokenUpdateFailed {
    /// The text that describes this failure.
    pub fn message(&self) -> (r: &'static str)
        ensures
            r@ == match self {
                TokenUpdateFailed::InvalidToken => "InvalidToken"@,
                TokenUpdateFailed::RwLockNotAcquired => "InternalServerError"@,
                TokenUpdateFailed::MustNeverOccur => "Deserialize failed"@,
            },
    {
        match self {
            TokenUpdateFailed::InvalidToken => "InvalidToken",
            TokenUpdateFailed::RwLockNotAcquired => "InternalServerError",
            TokenUpdateFailed::MustNeverOccur => "Deserialize failed",
        }
    }
}

impl From<RwLockNotAcquired> for TokenUpdateFailed {
    fn from(_e: RwLockNotAcquired) -> (r: Self) {
        TokenUpdateFailed::RwLockNotAcquired
    }
}

impl vstd::std_specs::convert::FromSpecImpl<RwLockNotAcquired> for TokenUpdateFailed {
    open spec fn obeys_from_spec() -> bool {
        true
    }

    open spec fn from_spec(e: RwLockNotAcquired) -> Self {
        TokenUpdateFailed::RwLockNotAcquired
    }
}

/// What a purge of expired tokens did.
#[derive(Debug, Clone, Copy, PartialEq, Eq)]
pub struct PurgeResult {
    /// Number of tokens left after the purge.
    pub tokens: usize,
    /// Number of tokens removed by the purge.
    pub purged: usize,
}

impl PurgeResult {
    /// The result of a purge that left `after` of `before` tokens.
    pub fn from_counts(before: usize, after: usize) -> (r: Self)
        requires
            after <= before,
        ensures
            r.tokens == after,
            r.purged == before - after,
    {
        PurgeResult { tokens: after, purged: before - after }
    }

    /// The report written to the log: `PURGED: tokens: <n>, purged: <m>`.
    pub fn report(&self) -> (r: String)
        ensures
            r@ == "PURGED: tokens: "@ + decimal(self.tokens as nat) + ", purged: "@ + decimal(
                self.purged as nat,
            ),
    {
        let mut r = String::from_str("PURGED: tokens: ");
        push_decimal(&mut r, self.tokens as u64);
        r.append(", purged: ");
        push_decimal(&mut r, self.purged as u64);
        r
    }
}

} // verus!
