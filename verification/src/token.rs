//! Token issuance and validation, delegated to jsonwebtoken behind a
//! trusted boundary. A process holds one `Tokenizer`, constructed at
//! startup from its configuration and passed by reference.

use vstd::prelude::*;
use crate::errors::TokenError;

verus! {

/// The claims carried by an access token.
pub struct Claims {
    /// The subject: the user the token was issued to.
    pub sub: i32,
    /// The expiration time, as seconds since the Unix epoch.
    pub exp: usize,
}

/// Issues and validates access tokens under one signing key.
pub struct Tokenizer {
    pub secret_key: String,
    pub expiration_duration: i64,
}

/// The longest expiration offset, in seconds, that the clock arithmetic
/// accepts.
pub const MAX_EXPIRATION_SECONDS: i64 = 9_000_000_000_000_000;

/// The signed token for the given subject, expiry and secret: signing
/// uses a fixed header and deterministic serialization, so the token is
/// a function of these three alone.
pub uninterp spec fn jwt_of(sub: int, exp: int, secret: Seq<char>) -> Seq<char>;

/// Relies on chrono's `Utc::now`, `TimeDelta::seconds` and
/// `checked_add_signed`: the Unix timestamp `seconds` from now, `None`
/// when that instant is out of chrono's range. The bound on `seconds`
/// keeps `TimeDelta::seconds` from panicking. The result depends on the
/// clock, so nothing more is promised.
#[verifier::external_body]
fn expiry_timestamp(seconds: i64) -> (r: Option<i64>)
    requires
        -MAX_EXPIRATION_SECONDS <= seconds <= MAX_EXPIRATION_SECONDS,
{
    chrono::Utc::now()
        .checked_add_signed(chrono::Duration::seconds(seconds))
        .map(|t| t.timestamp())
}

/// Relies on jsonwebtoken's `encode` with `Header::default` (HS256) and
/// `EncodingKey::from_secret`, the claims carried as a serde_json map:
/// HMAC signing and the map's serialization are deterministic, so a
/// returned token is a function of subject, expiry and secret.
#[verifier::external_body]
fn encode_claims(sub: i32, exp: usize, secret: &str) -> (r: Result<String, TokenError>)
    ensures
        r matches Ok(t) ==> t@ == jwt_of(sub as int, exp as int, secret@),
{
    let mut claims = serde_json::Map::new();
    claims.insert("sub".to_string(), serde_json::Value::from(sub));
    claims.insert("exp".to_string(), serde_json::Value::from(exp));
    jsonwebtoken::encode(
        &jsonwebtoken::Header::default(),
        &serde_json::Value::Object(claims),
        &jsonwebtoken::EncodingKey::from_secret(secret.as_bytes()),
    )
    .map_err(|_| TokenError::Encode)
}

/// Relies on jsonwebtoken's `decode` with `Validation::default()`
/// (HS256, expiry checked against the clock): the `sub` and `exp`
/// claims of a token that validated. `decode` verifies the signature
/// and deserializes the very payload that was signed, so a token that
/// is the encoding of some subject and expiry under this secret can
/// only decode to those claims; whether it validates at all depends on
/// the clock, so nothing more is promised. Out-of-range numeric claims
/// are rejected, not wrapped.
#[verifier::external_body]
fn decode_claims(token: &str, secret: &str) -> (r: Result<(i32, usize), TokenError>)
    ensures
        r matches Ok(c) ==> forall|s: i32, e: usize|
            token@ == jwt_of(s as int, e as int, secret@) ==> c.0 == s && c.1 == e,
{
    let mut validation = jsonwebtoken::Validation::default();
    validation.validate_exp = true;
    let data = jsonwebtoken::decode::<serde_json::Value>(
        token,
        &jsonwebtoken::DecodingKey::from_secret(secret.as_bytes()),
        &validation,
    )
    .map_err(|_| TokenError::Invalid)?;
    let sub = data.claims.get("sub").and_then(|v| v.as_i64()).ok_or(TokenError::Invalid)?;
    let exp = data.claims.get("exp").and_then(|v| v.as_u64()).ok_or(TokenError::Invalid)?;
    let sub = i32::try_from(sub).map_err(|_| TokenError::Invalid)?;
    let exp = usize::try_from(exp).map_err(|_| TokenError::Invalid)?;
    Ok((sub, exp))
}

/// Relies on uuid's `Uuid::new_v4` and its hyphenated display form: a
/// random version-4 identifier rendered as 36 characters. The value is
/// random, so only its length is promised.
#[verifier::external_body]
fn random_uuid_string() -> (r: String)
    ensures
        r@.len() == 36,
{
    uuid::Uuid::new_v4().to_string()
}

impl Tokenizer {
    /// Issues an access token for the user: the claims are the user id
    /// and an expiry this tokenizer's duration from now, signed with
    /// its secret key.
    pub fn generate_token(&self, user_id: i32) -> (r: Result<String, TokenError>)
        requires
            -MAX_EXPIRATION_SECONDS <= self.expiration_duration <= MAX_EXPIRATION_SECONDS,
        ensures
            r matches Ok(t) ==> exists|e: usize|
                t@ == jwt_of(user_id as int, e as int, self.secret_key@),
    {
        match expiry_timestamp(self.expiration_duration) {
            None => Err(TokenError::Clock),
            Some(ts) => {
                let exp = #[verifier::truncate] (ts as usize);
                let claims = Claims { sub: user_id, exp };
                match encode_claims(claims.sub, claims.exp, self.secret_key.as_str()) {
                    Err(e) => Err(e),
                    Ok(token) => {
                        proof {
                            assert(token@ == jwt_of(user_id as int, exp as int, self.secret_key@));
                        }
                        Ok(token)
                    },
                }
            },
        }
    }

    /// Decodes and validates an access token issued with this
    /// tokenizer's secret key, returning its claims: a validated token
    /// that was issued here carries exactly the subject and expiry it
    /// was issued with, so a generate-then-decode round trip returns
    /// the issuing user's id.
    pub fn decode_token(&self, token: &str) -> (r: Result<Claims, TokenError>)
        ensures
            r matches Ok(c) ==> forall|s: i32, e: usize|
                token@ == jwt_of(s as int, e as int, self.secret_key@)
                    ==> c.sub == s && c.exp == e,
    {
        match decode_claims(token, self.secret_key.as_str()) {
            Err(e) => Err(e),
            Ok((sub, exp)) => Ok(Claims { sub, exp }),
        }
    }

    /// Issues a fresh access token for the user: refreshing is exactly
    /// issuing a new access token, so decoding a refreshed token under
    /// this tokenizer yields the same user id.
    pub fn refresh_token(&self, user_id: i32) -> (r: Result<String, TokenError>)
        requires
            -MAX_EXPIRATION_SECONDS <= self.expiration_duration <= MAX_EXPIRATION_SECONDS,
        ensures
            r matches Ok(t) ==> exists|e: usize|
                t@ == jwt_of(user_id as int, e as int, self.secret_key@),
    {
        self.generate_token(user_id)
    }

    /// A fresh random refresh token in hyphenated form.
    pub fn generate_refresh_token(&self) -> (r: String)
        ensures
            r@.len() == 36,
    {
        random_uuid_string()
    }
}

} // verus!
