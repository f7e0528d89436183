//! Signed, expiring bearer sessions.
//!
//! Claims — user id, device id and a unix expiry — exist only inside a
//! compact token signed with the process-wide secret by a keyed MAC. The
//! signer is a vetted black box: the token produced for given claims and
//! secret is named by an uninterpreted function, and validation states
//! that a token is accepted exactly when it carries well-signed claims
//! whose expiry has not passed.

use vstd::prelude::*;

use crate::devices::Device;
use crate::errors::AuthError;

verus! {

/// The compact signed token that HMAC-SHA256 signing produces for the
/// claims (user id, device id, expiry) under `secret`: a pure function of
/// its four arguments, left uninterpreted.
pub uninterp spec fn jwt_token(
    user_id: Seq<char>,
    device_id: Seq<char>,
    exp: u64,
    secret: Seq<u8>,
) -> Seq<char>;

/// Relies on jsonwebtoken::encode with the HS256 algorithm: the returned
/// string is the canonical signed token for exactly these claims and this
/// secret. The encoder has no failure path here: the secret's key family
/// matches the default header's algorithm, JSON serialization of a
/// string-keyed map is infallible, and HMAC-SHA256 signing always returns.
#[verifier::external_body]
fn jwt_sign(user_id: &str, device_id: &str, exp: u64, secret: &[u8]) -> (t: String)
    ensures
        t@ == jwt_token(user_id@, device_id@, exp, secret@),
{
    let mut claims = serde_json::Map::new();
    claims.insert("user_id".to_string(), serde_json::Value::String(user_id.to_string()));
    claims.insert("device_id".to_string(), serde_json::Value::String(device_id.to_string()));
    claims.insert("exp".to_string(), serde_json::Value::from(exp));
    let key = jsonwebtoken::EncodingKey::from_secret(secret);
    let header = jsonwebtoken::Header::default();
    jsonwebtoken::encode(&header, &serde_json::Value::Object(claims), &key)
        .expect("HMAC signing of string-keyed claims has no failure path")
}

/// Relies on jsonwebtoken::decode with the HS256 algorithm, with the expiry
/// check disabled so that expiry is judged against an explicit clock by the
/// verified caller. Reading the MAC check as the standard unforgeability
/// guarantee of HMAC-SHA256, a token accepted under `secret` is the one
/// signed token for its claims, and distinct claims sign to distinct
/// tokens.
#[verifier::external_body]
fn jwt_parse(token: &str, secret: &[u8]) -> (r: Result<(String, String, u64), ()>)
    ensures
        r matches Ok(c) ==> token@ == jwt_token(c.0@, c.1@, c.2, secret@),
        r matches Ok(c) ==> forall|u: Seq<char>, d: Seq<char>, e: u64|
            token@ == jwt_token(u, d, e, secret@) ==> u == c.0@ && d == c.1@ && e == c.2,
        r is Err ==> forall|u: Seq<char>, d: Seq<char>, e: u64|
            token@ != jwt_token(u, d, e, secret@),
{
    let mut validation = jsonwebtoken::Validation::new(jsonwebtoken::Algorithm::HS256);
    validation.validate_exp = false;
    validation.required_spec_claims = std::collections::HashSet::new();
    let key = jsonwebtoken::DecodingKey::from_secret(secret);
    let data = jsonwebtoken::decode::<serde_json::Value>(token, &key, &validation).map_err(
        |_| (),
    )?;
    let user = data.claims.get("user_id").and_then(|v| v.as_str()).ok_or(())?;
    let device = data.claims.get("device_id").and_then(|v| v.as_str()).ok_or(())?;
    let exp = data.claims.get("exp").and_then(|v| v.as_u64()).ok_or(())?;
    Ok((user.to_string(), device.to_string(), exp))
}

/// Issues and validates bearer tokens with one process-wide secret, fixed
/// at startup.
pub struct SessionTokenService {
    pub secret: Vec<u8>,
}

impl SessionTokenService {
    /// A service bound to the given signing secret.
    pub fn new(secret: Vec<u8>) -> (s: SessionTokenService)
        ensures
            s.secret@ == secret@,
    {
        SessionTokenService { secret }
    }

    /// Issue a token whose claims expire `ttl` seconds after `now`: always
    /// the one signed token for exactly these claims under the service's
    /// secret.
    pub fn issue(&self, user_id: &str, device_id: &str, now: u64, ttl: u64) -> (t: String)
        requires
            now + ttl <= u64::MAX,
        ensures
            t@ == jwt_token(user_id@, device_id@, (now + ttl) as u64, self.secret@),
    {
        let exp = now + ttl;
        jwt_sign(user_id, device_id, exp, self.secret.as_slice())
    }

    /// Validate a bearer token against the secret and the clock `now`: the
    /// claims come back exactly when the token is the signed encoding of
    /// claims that have not yet expired; a well-signed token whose expiry
    /// has passed is `Expired`; anything else is `InvalidToken`.
    pub fn validate(&self, token: &str, now: u64) -> (r: Result<Device, AuthError>)
        ensures
            r matches Ok(c) ==> token@ == jwt_token(
                c.user_id@,
                c.device_id@,
                c.expiration,
                self.secret@,
            ) && now < c.expiration,
            r matches Ok(c) ==> forall|u: Seq<char>, d: Seq<char>, e: u64|
                token@ == jwt_token(u, d, e, self.secret@) ==> u == c.user_id@ && d
                    == c.device_id@ && e == c.expiration,
            r is Ok <==> exists|u: Seq<char>, d: Seq<char>, e: u64|
                token@ == jwt_token(u, d, e, self.secret@) && now < e,
            r == Err::<Device, AuthError>(AuthError::Expired) <==> exists|
                u: Seq<char>,
                d: Seq<char>,
                e: u64,
            |
                token@ == jwt_token(u, d, e, self.secret@) && e <= now,
            r == Err::<Device, AuthError>(AuthError::InvalidToken) <==> forall|
                u: Seq<char>,
                d: Seq<char>,
                e: u64,
            |
                token@ != jwt_token(u, d, e, self.secret@),
    {
        match jwt_parse(token, self.secret.as_slice()) {
            Ok((user_id, device_id, exp)) => {
                if now < exp {
                    Ok(Device { device_id, expiration: exp, user_id })
                } else {
                    Err(AuthError::Expired)
                }
            },
            Err(_) => Err(AuthError::InvalidToken),
        }
    }
}

} // verus!
