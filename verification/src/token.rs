//! Stateless access tokens: short-lived signed claims, verified by
//! signature and expiry alone, never by a store lookup. The signing
//! and parsing are jsonwebtoken's; the claims a token carries under
//! a given secret are named by `jwt_claims`, and every contract here
//! speaks through that name.

use crate::text::{bearer_prefix_spec, bearer_token};
use vstd::prelude::*;

verus! {

/// Lifetime of an access token, in seconds.
pub const ACCESS_TOKEN_TTL_SECS: u64 = 3600;

/// The claims that a token string carries under a secret, when its
/// signature is valid under that secret: subject, issued-at, expiry
/// and the unique token id. A function of the token and secret
/// alone; expiry checking is the caller's concern.
pub uninterp spec fn jwt_claims(token: Seq<char>, secret: Seq<u8>) -> Option<
    (u32, u64, u64, Seq<char>),
>;

/// The claims carried inside an access token.
#[derive(Debug)]
pub struct Claims {
    pub sub: u32,
    pub exp: u64,
    pub iat: u64,
    pub jti: String,
}

/// Failure of token creation or verification.
#[derive(Debug)]
pub enum TokenError {
    CreationFailed,
    Invalid,
}

/// Relies on jsonwebtoken::encode with HS256: the token it returns
/// is signed with `secret` and carries exactly the claims handed in,
/// which decode under the same secret recovers. The call always
/// succeeds here: the default header's HS256 matches the HMAC key
/// family, HMAC signing returns no error, and serializing the
/// string-keyed claims map cannot fail; the token it builds joins
/// three non-empty base64 parts, so it is never empty.
#[verifier::external_body]
fn encode_claims(sub: u32, iat: u64, exp: u64, jti: &str, secret: &[u8]) -> (r: Result<
    String,
    TokenError,
>)
    ensures
        r is Ok,
        r matches Ok(t) ==> jwt_claims(t@, secret@) == Some((sub, iat, exp, jti@)) && t@.len()
            > 0,
{
    let mut claims = serde_json::Map::new();
    claims.insert("sub".to_owned(), serde_json::Value::from(sub));
    claims.insert("iat".to_owned(), serde_json::Value::from(iat));
    claims.insert("exp".to_owned(), serde_json::Value::from(exp));
    claims.insert("jti".to_owned(), serde_json::Value::from(jti));
    let key = jsonwebtoken::EncodingKey::from_secret(secret);
    jsonwebtoken::encode(&jsonwebtoken::Header::default(), &claims, &key).map_err(|_| {
        TokenError::CreationFailed
    })
}

/// Relies on jsonwebtoken::decode with default validation: success
/// means the signature matched `secret` and the expiry lay within
/// the validator's window, and the claims returned are the ones the
/// token carries. Expiry makes success time-dependent, so only the
/// success case is described.
#[verifier::external_body]
fn decode_claims(token: &str, secret: &[u8]) -> (r: Result<(u32, u64, u64, String), TokenError>)
    ensures
        r matches Ok(c) ==> jwt_claims(token@, secret@) == Some((c.0, c.1, c.2, c.3@)),
{
    let key = jsonwebtoken::DecodingKey::from_secret(secret);
    let v = jsonwebtoken::Validation::default();
    let c = jsonwebtoken::decode::<serde_json::Map<String, serde_json::Value>>(token, &key, &v)
        .map_err(|_| TokenError::Invalid)?
        .claims;
    let g = |k: &str| c.get(k).and_then(serde_json::Value::as_u64);
    match (g("sub"), g("iat"), g("exp"), c.get("jti").and_then(|x| x.as_str())) {
        (Some(s), Some(i), Some(e), Some(j)) if s <= u32::MAX as u64 => Ok((s as u32, i, e, j.to_owned())),
        _ => Err(TokenError::Invalid),
    }
}

/// Relies on uuid::Uuid::new_v4 and its hyphenated rendering: a
/// fresh unguessable identifier, 36 characters long. Nothing is
/// assumed of its value beyond the length.
#[verifier::external_body]
pub(crate) fn new_opaque_token() -> (r: String)
    ensures
        r@.len() == 36,
{
    uuid::Uuid::new_v4().to_string()
}

/// Issues an access token for `user_id`: subject, issued-at `now`,
/// expiry one TTL later, and a fresh random token id, signed with
/// the process-wide secret. Issuance never fails.
pub fn create_token(user_id: u32, now: u64, secret: &[u8]) -> (r: Result<String, TokenError>)
    requires
        now <= u64::MAX - ACCESS_TOKEN_TTL_SECS,
    ensures
        r is Ok,
        r matches Ok(t) ==> (jwt_claims(t@, secret@) matches Some(c) && c.0 == user_id && c.1
            == now && c.2 == now + ACCESS_TOKEN_TTL_SECS) && t@.len() > 0,
{
    let jti = new_opaque_token();
    encode_claims(user_id, now, now + ACCESS_TOKEN_TTL_SECS, jti.as_str(), secret)
}

/// Verifies an access token: on success the returned claims are
/// exactly the ones the token carries under `secret`, proven by
/// signature, within the validator's expiry window.
pub fn verify_token(token: &str, secret: &[u8]) -> (r: Result<Claims, TokenError>)
    ensures
        r matches Ok(c) ==> jwt_claims(token@, secret@) == Some((c.sub, c.iat, c.exp, c.jti@)),
{
    let (sub, iat, exp, jti) = decode_claims(token, secret)?;
    Ok(Claims { sub, exp, iat, jti })
}

/// The authentication gate: reads a bearer Authorization header,
/// verifies the token, and yields the caller's identity. On success
/// the header carried a valid signed token whose subject is the
/// returned user id.
pub fn authenticate(header: Option<&str>, secret: &[u8]) -> (r: Result<u32, TokenError>)
    ensures
        r matches Ok(uid) ==> (header matches Some(h) && bearer_prefix_spec(h@) && (jwt_claims(
            h@.skip(7),
            secret@,
        ) matches Some(c) && c.0 == uid)),
{
    let h = match header {
        Some(h) => h,
        None => {
            return Err(TokenError::Invalid);
        },
    };
    let token = match bearer_token(h) {
        Some(t) => t,
        None => {
            return Err(TokenError::Invalid);
        },
    };
    let claims = verify_token(token, secret)?;
    Ok(claims.sub)
}

} // verus!
