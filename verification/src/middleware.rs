//! The middleware in front of protected routes: a request is authorized only if
//! its bearer token validates against the secret and the clock, and the
//! claimed (user, device) pair has an approved, unexpired device record.
//! Absence of proof of trust always denies: the check fails closed.

use vstd::prelude::*;

use crate::devices::{trusted, Device, DeviceStore};
use crate::errors::AuthError;
use crate::session::{jwt_token, SessionTokenService};

verus! {

/// Authorize one inbound request: validate the bearer token, then confirm
/// the claimed pair is a trusted device. The claims come back — for
/// injection into the request context — exactly when both checks pass; a
/// well-signed, unexpired token for an untrusted pair is `UntrustedDevice`.
pub fn validate_request(
    service: &SessionTokenService,
    devices: &DeviceStore,
    token: &str,
    now: u64,
) -> (r: Result<Device, AuthError>)
    ensures
        r matches Ok(c) ==> token@ == jwt_token(
            c.user_id@,
            c.device_id@,
            c.expiration,
            service.secret@,
        ) && now < c.expiration && trusted(devices.records@, c.user_id@, c.device_id@, now),
        r is Ok <==> exists|u: Seq<char>, d: Seq<char>, e: u64|
            token@ == jwt_token(u, d, e, service.secret@) && now < e && trusted(
                devices.records@,
                u,
                d,
                now,
            ),
        r == Err::<Device, AuthError>(AuthError::UntrustedDevice) <==> exists|
            u: Seq<char>,
            d: Seq<char>,
            e: u64,
        |
            token@ == jwt_token(u, d, e, service.secret@) && now < e && !trusted(
                devices.records@,
                u,
                d,
                now,
            ),
        r == Err::<Device, AuthError>(AuthError::Expired) <==> exists|
            u: Seq<char>,
            d: Seq<char>,
            e: u64,
        |
            token@ == jwt_token(u, d, e, service.secret@) && e <= now,
        r == Err::<Device, AuthError>(AuthError::InvalidToken) <==> forall|
            u: Seq<char>,
            d: Seq<char>,
            e: u64,
        |
            token@ != jwt_token(u, d, e, service.secret@),
{
    match service.validate(token, now) {
        Ok(claims) => {
            if devices.is_trusted(&claims.user_id, &claims.device_id, now) {
                Ok(claims)
            } else {
                Err(AuthError::UntrustedDevice)
            }
        },
        Err(e) => Err(e),
    }
}

} // verus!
