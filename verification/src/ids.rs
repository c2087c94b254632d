//! Identities: player ids arriving as strings, and the fresh match id
//! and bearer tokens minted for each pairing.
//!
//! Ids are UUIDs. An incoming player id (from a caller's token claims)
//! is validated before any store is touched; match ids and handoff
//! tokens are freshly generated random UUIDs, opaque bearer strings to
//! everyone but the worker that checks them.

use vstd::prelude::*;
use vstd::string::StringExecFns;

verus! {

/// Whether `uuid::Uuid::parse_str` accepts this spelling: a function of
/// the characters alone.
pub uninterp spec fn uuid_parses(s: Seq<char>) -> bool;

/// Relies on `uuid::Uuid::parse_str`: acceptance of a spelling depends
/// only on the input string.
#[verifier::external_body]
fn is_uuid_string(s: &String) -> (r: bool)
    ensures
        r == uuid_parses(s@),
{
    uuid::Uuid::parse_str(s.as_str()).is_ok()
}

/// Relies on `uuid::Uuid::new_v4` and `Display` for `Uuid`: the value is
/// random, and its rendering is the 36-character hyphenated form, which
/// `parse_str` accepts. The call aborts the process if the operating
/// system's randomness source fails — an environmental failure
/// independent of any input, like resource exhaustion.
#[verifier::external_body]
fn fresh_uuid_string() -> (r: String)
    ensures
        r@.len() == 36,
        uuid_parses(r@),
{
    uuid::Uuid::new_v4().to_string()
}

/// Why an incoming player id was rejected.
#[derive(Clone, Copy, Debug, PartialEq, Eq, Structural)]
pub enum IdError {
    InvalidFormat,
}

impl IdError {
    /// The bad-request body a caller with a malformed id claim sees.
    pub fn message(&self) -> (r: String)
        ensures
            r@ == "Invalid player ID format in token"@,
    {
        String::from_str("Invalid player ID format in token")
    }
}

/// Validate a string-encoded player id as it arrives from a caller's
/// token claims: accepted exactly when it spells a UUID.
pub fn validate_player_id(s: &String) -> (r: Result<(), IdError>)
    ensures
        r is Ok <==> uuid_parses(s@),
        r is Err ==> r == Result::<(), IdError>::Err(IdError::InvalidFormat),
{
    if is_uuid_string(s) {
        Ok(())
    } else {
        Err(IdError::InvalidFormat)
    }
}

/// The fresh identity of one pairing: a match id and one opaque bearer
/// token per player.
pub struct MatchIdentity {
    pub match_id: String,
    pub p1_token: String,
    pub p2_token: String,
}

/// Mint the identity for a new match: three fresh random UUIDs. Each is
/// 36 characters and itself a valid id; distinctness holds with the
/// overwhelming probability of random UUIDs and is not promised.
pub fn mint_match_identity() -> (m: MatchIdentity)
    ensures
        m.match_id@.len() == 36 && uuid_parses(m.match_id@),
        m.p1_token@.len() == 36 && uuid_parses(m.p1_token@),
        m.p2_token@.len() == 36 && uuid_parses(m.p2_token@),
{
    MatchIdentity {
        match_id: fresh_uuid_string(),
        p1_token: fresh_uuid_string(),
        p2_token: fresh_uuid_string(),
    }
}

} // verus!
