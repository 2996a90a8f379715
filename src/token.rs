//! Signed, time-boxed access tokens: HS256 JSON Web Tokens whose one claim
//! is the expiry time.

use jsonwebtokens::error::Error as JwtError;
use vstd::prelude::*;

verus! {

/// How long a token stays valid, in seconds.
pub const TOKEN_TTL: u64 = 86400;

/// Why a token was refused.
#[derive(Debug, Clone, Copy, PartialEq, Eq, Structural)]
pub enum AuthError {
    /// The signature does not match the secret.
    InvalidSignature,
    /// The expiry time has passed.
    Expired,
    /// The token could not be read.
    Malformed,
}

/// Why a token could not be issued.
#[derive(Debug, Clone, Copy, PartialEq, Eq, Structural)]
pub enum IssueError {
    /// The current time is unknown, or its expiry does not fit in 64 bits.
    Clock,
}

/// A character of a compact token: the base64url alphabet, and the dots
/// between the parts.
pub open spec fn is_token_char(c: char) -> bool {
    ('A' <= c <= 'Z') || ('a' <= c <= 'z') || ('0' <= c <= '9') || c == '-' || c == '_' || c == '.'
}

/// Every character of `t` is a token character.
pub open spec fn token_chars(t: Seq<char>) -> bool {
    forall|i: int| 0 <= i < t.len() ==> is_token_char(#[trigger] t[i])
}

/// The error of jsonwebtokens, carried without looking inside.
#[verifier::external_type_specification]
#[verifier::external_body]
pub struct ExJwtError(JwtError);

/// The token that carries the claim `exp`, signed with HS256 under `secret`.
pub uninterp spec fn hs256_token(secret: Seq<char>, exp: u64) -> Seq<char>;

/// The outcome of checking `token` under `secret` at time `now`.
pub uninterp spec fn token_verdict(token: Seq<char>, secret: Seq<char>, now: u64) -> Result<(), AuthError>;

/// What checking a genuine token with expiry `exp` gives at time `now`.
pub open spec fn expiry_verdict(exp: u64, now: u64) -> Result<(), AuthError> {
    if now < exp {
        Ok(())
    } else {
        Err(AuthError::Expired)
    }
}

/// Relies on jsonwebtokens::encode, with an HS256 key from `secret`, the
/// header `{"alg":"HS256"}` and the single claim `exp`: the token depends on
/// these alone. It succeeds: `new_hmac` only checks the algorithm id, a
/// one-entry map always serialises, and HMAC signing with a secret returns
/// `Ok`. The token is three base64url parts (no padding) joined by dots.
#[verifier::external_body]
fn encode_hs256(secret: &str, exp: u64) -> (r: Result<String, JwtError>)
    ensures
        r is Ok,
        r matches Ok(t) ==> t@ == hs256_token(secret@, exp) && token_chars(t@),
{
    let alg = jsonwebtokens::Algorithm::new_hmac(jsonwebtokens::AlgorithmID::HS256, secret)?;
    let header = std::collections::HashMap::from([("alg", alg.name())]);
    let claims = std::collections::HashMap::from([("exp", exp)]);
    jsonwebtokens::encode(&header, &claims, &alg)
}

/// Relies on jsonwebtokens::Verifier::verify_for_time, with an HS256 key from
/// `secret` and no required claims. Its outcome depends on the arguments
/// alone. It signs the token's header and claims again and compares, then
/// refuses a token whose `exp` is at or before `now`; so a token that
/// `encode` made under the same secret passes exactly while `now < exp`.
#[verifier::external_body]
fn verify_hs256(token: &str, secret: &str, now: u64) -> (r: Result<(), AuthError>)
    ensures
        r == token_verdict(token@, secret@, now),
        forall|exp: u64| #[trigger] hs256_token(secret@, exp) == token@ ==> r == expiry_verdict(exp, now),
{
    let alg = jsonwebtokens::Algorithm::new_hmac(jsonwebtokens::AlgorithmID::HS256, secret);
    let checked = alg.and_then(|a| jsonwebtokens::Verifier::create().build()?.verify_for_time(token, &a, now));
    match checked {
        Ok(_) => Ok(()),
        Err(JwtError::TokenExpiredAt(_)) => Err(AuthError::Expired),
        Err(JwtError::InvalidSignature()) => Err(AuthError::InvalidSignature),
        Err(JwtError::AlgorithmMismatch()) => Err(AuthError::InvalidSignature),
        Err(_) => Err(AuthError::Malformed),
    }
}

/// Relies on std::time::SystemTime::now, read as whole seconds since the Unix
/// epoch; `None` when the clock reads earlier than the epoch.
#[verifier::external_body]
pub(crate) fn now_secs() -> (r: Option<u64>) {
    std::time::SystemTime::now().duration_since(std::time::UNIX_EPOCH).ok().map(|d| d.as_secs())
}

/// Issues a token at time `now` that expires `TOKEN_TTL` seconds later; it
/// fails only when that expiry does not fit in 64 bits.
pub fn issue_token_at(secret: &str, now: u64) -> (r: Result<String, IssueError>)
    ensures
        now + TOKEN_TTL > u64::MAX ==> r == Err::<String, IssueError>(IssueError::Clock),
        now + TOKEN_TTL <= u64::MAX ==> r is Ok,
        r matches Ok(t) ==> t@ == hs256_token(secret@, (now + TOKEN_TTL) as u64) && token_chars(t@),
{
    let exp = match now.checked_add(TOKEN_TTL) {
        None => return Err(IssueError::Clock),
        Some(e) => e,
    };
    match encode_hs256(secret, exp) {
        Ok(t) => Ok(t),
        Err(_) => Err(IssueError::Clock),
    }
}

/// Issues a token that expires `TOKEN_TTL` seconds from now; it fails only
/// when the clock cannot be read or the expiry does not fit in 64 bits.
pub fn generate_token(secret: &str) -> (r: Result<String, IssueError>)
    ensures
        r is Err ==> r == Err::<String, IssueError>(IssueError::Clock),
        r matches Ok(t) ==> token_chars(t@) && exists|exp: u64|
            exp >= TOKEN_TTL && t@ == #[trigger] hs256_token(secret@, exp),
{
    match now_secs() {
        None => Err(IssueError::Clock),
        Some(now) => issue_token_at(secret, now),
    }
}

/// Checks `token` under `secret` at time `now`: its signature, then its
/// expiry.
pub fn verify_token_at(token: &str, secret: &str, now: u64) -> (r: Result<(), AuthError>)
    ensures
        r == token_verdict(token@, secret@, now),
        forall|exp: u64| #[trigger] hs256_token(secret@, exp) == token@ ==> r == expiry_verdict(exp, now),
{
    verify_hs256(token, secret, now)
}

/// Checks `token` under `secret` now; a clock that reads before the epoch
/// fails as `Expired`.
pub fn verify_token(token: &str, secret: &str) -> (r: Result<(), AuthError>)
    ensures
        r is Ok ==> exists|now: u64| #[trigger] token_verdict(token@, secret@, now) is Ok,
{
    match now_secs() {
        None => Err(AuthError::Expired),
        Some(now) => verify_token_at(token, secret, now),
    }
}

/// Round trip: the outcome of checking, at `now`, the token issued under
/// `secret` at `issued` (any outcome that meets the contract of
/// `verify_token_at` for that token) is success exactly while fewer than
/// `TOKEN_TTL` seconds have passed, and `Expired` from then on.
pub proof fn lemma_token_round_trip(secret: Seq<char>, issued: u64, now: u64, verdict: Result<(), AuthError>)
    requires
        issued + TOKEN_TTL <= u64::MAX,
        forall|exp: u64|
            #[trigger] hs256_token(secret, exp) == hs256_token(secret, (issued + TOKEN_TTL) as u64)
                ==> verdict == expiry_verdict(exp, now),
    ensures
        verdict is Ok <==> now < issued + TOKEN_TTL,
        now >= issued + TOKEN_TTL ==> verdict == Err::<(), AuthError>(AuthError::Expired),
{
    let exp = (issued + TOKEN_TTL) as u64;
    assert(hs256_token(secret, exp) == hs256_token(secret, exp));
}

} // verus!
