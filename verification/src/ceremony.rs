//! The origin-bound passkey registration ceremony.
//!
//! A ceremony has two steps. Starting one derives the relying-party origin
//! from the current request — never a hardcoded value — and stores the
//! server-side state under a fresh random ceremony id with a hard expiry.
//! Finishing one consumes that state (single use), demands the very origin
//! the ceremony was started under, and only then lets the authenticator
//! library verify the client's credential. Cross-origin replay is refused
//! before any cryptography runs, and an origin mismatch is always a
//! ceremony failure, never silently downgraded.

use vstd::prelude::*;

use vstd::utf8::{
    decode_utf8_encode_utf8, encode_utf8, encode_utf8_decode_utf8, encode_utf8_valid_utf8,
};

use crate::codec::bytes_to_string;
use crate::errors::CeremonyError;

verus! {

/// A passkey registration request body.
#[derive(Debug, Clone)]
pub struct WebAuthnAuthRequest {
    pub user_id: String,
    pub challenge: String,
}

/// A passkey verification request body.
#[derive(Debug, Clone)]
pub struct WebAuthnVerifyRequest {
    pub user_id: String,
    pub credential_id: String,
    pub passkey_session_id: String,
}

#[verifier::external_type_specification]
#[verifier::external_body]
pub struct ExUrl(url::Url);

#[verifier::external_type_specification]
#[verifier::external_body]
pub struct ExWebauthn(webauthn_rs::Webauthn);

#[verifier::external_type_specification]
#[verifier::external_body]
pub struct ExCreationChallengeResponse(webauthn_rs::prelude::CreationChallengeResponse);

#[verifier::external_type_specification]
#[verifier::external_body]
pub struct ExPasskeyRegistration(webauthn_rs::prelude::PasskeyRegistration);

#[verifier::external_type_specification]
#[verifier::external_body]
pub struct ExRegisterPublicKeyCredential(webauthn_rs::prelude::RegisterPublicKeyCredential);

/// Whether `s` parses as an absolute URL: a pure function of the string,
/// left uninterpreted.
pub uninterp spec fn url_ok(s: Seq<char>) -> bool;

/// Whether `s` parses as a client-submitted registration credential: a pure
/// function of the string, left uninterpreted.
pub uninterp spec fn cred_parses(s: Seq<char>) -> bool;

/// Whether `s` parses as server-held registration state: a pure function of
/// the string, left uninterpreted.
pub uninterp spec fn state_parses(s: Seq<char>) -> bool;

/// Whether the credential in `cred_json` cryptographically answers the
/// challenge of the server state in `state_json`, bound to `origin` under
/// the relying party `rp_id`: a pure function of the four strings, left
/// uninterpreted.
pub uninterp spec fn ceremony_verifies(
    rp_id: Seq<char>,
    origin: Seq<char>,
    cred_json: Seq<char>,
    state_json: Seq<char>,
) -> bool;

/// Relies on url::Url::parse: it succeeds exactly on well-formed absolute
/// URLs.
#[verifier::external_body]
fn parse_url(s: &str) -> (r: Result<url::Url, ()>)
    ensures
        r is Ok <==> url_ok(s@),
{
    url::Url::parse(s).map_err(|_| ())
}

/// Relies on webauthn_rs::WebauthnBuilder::new and build: a verifier bound
/// to the relying-party id and origin; refused when the id is not the
/// origin's effective domain.
#[verifier::external_body]
fn build_webauthn(rp_id: &str, origin: &url::Url) -> (r: Result<webauthn_rs::Webauthn, ()>)
{
    match webauthn_rs::WebauthnBuilder::new(rp_id, origin) {
        Ok(builder) => builder.build().map_err(|_| ()),
        Err(_) => Err(()),
    }
}

/// Relies on webauthn_rs::Webauthn::start_passkey_registration, under a
/// fresh random user handle from uuid::Uuid::new_v4: the challenge and the
/// server-side state of a new ceremony. Both depend on fresh randomness, so
/// nothing is promised of their contents.
#[verifier::external_body]
fn webauthn_start(wa: &webauthn_rs::Webauthn, user_id: &str) -> (r: Result<
    (webauthn_rs::prelude::CreationChallengeResponse, webauthn_rs::prelude::PasskeyRegistration),
    (),
>)
{
    wa.start_passkey_registration(uuid::Uuid::new_v4(), user_id, user_id, None).map_err(|_| ())
}

/// Relies on serde_json::to_string: the challenge as a JSON body for the
/// client.
#[verifier::external_body]
fn challenge_json(c: &webauthn_rs::prelude::CreationChallengeResponse) -> (r: Result<String, ()>)
{
    serde_json::to_string(c).map_err(|_| ())
}

/// Relies on serde_json::to_string: the server-side ceremony state as an
/// opaque string the store can hold; what the derived serializer writes,
/// the derived deserializer reads back, so a stored state parses.
#[verifier::external_body]
fn state_to_json(s: &webauthn_rs::prelude::PasskeyRegistration) -> (r: Result<String, ()>)
    ensures
        r matches Ok(out) ==> state_parses(out@),
{
    serde_json::to_string(s).map_err(|_| ())
}

/// Relies on serde_json::from_str: the stored ceremony state read back; it
/// succeeds exactly on strings that parse as registration state.
#[verifier::external_body]
fn state_from_json(s: &str) -> (r: Result<webauthn_rs::prelude::PasskeyRegistration, ()>)
    ensures
        r is Ok <==> state_parses(s@),
{
    serde_json::from_str(s).map_err(|_| ())
}

/// Relies on serde_json::from_str: the client-submitted credential, parsed;
/// it succeeds exactly on strings that parse as a registration credential.
/// Failure here is bad ceremony data, not a cryptographic failure.
#[verifier::external_body]
fn credential_from_json(s: &str) -> (r: Result<
    webauthn_rs::prelude::RegisterPublicKeyCredential,
    (),
>)
    ensures
        r is Ok <==> cred_parses(s@),
{
    serde_json::from_str(s).map_err(|_| ())
}

/// Relies on webauthn_rs::Webauthn::finish_passkey_registration, reached
/// through url::Url::parse, WebauthnBuilder::new and build, and
/// serde_json::from_str on the two ceremony objects. No attestation CA list
/// is given, so no certificate clock check runs, and the verdict — the
/// credential answers the state's challenge and is bound to the verifier's
/// origin — is a pure function of the four strings.
#[verifier::external_body]
fn webauthn_verify_registration(rp_id: &str, origin: &str, cred_json: &str, state_json: &str) -> (r:
    Result<(), ()>)
    ensures
        r is Ok <==> ceremony_verifies(rp_id@, origin@, cred_json@, state_json@),
{
    let url = url::Url::parse(origin).map_err(|_| ())?;
    let wa = webauthn_rs::WebauthnBuilder::new(rp_id, &url).and_then(|b| b.build()).map_err(
        |_| (),
    )?;
    let cred: webauthn_rs::prelude::RegisterPublicKeyCredential =
        serde_json::from_str(cred_json).map_err(|_| ())?;
    let state: webauthn_rs::prelude::PasskeyRegistration =
        serde_json::from_str(state_json).map_err(|_| ())?;
    wa.finish_passkey_registration(&cred, &state).map(|_| ()).map_err(|_| ())
}

/// Relies on uuid::Uuid::new_v4 and its hyphenated display form: a fresh
/// random ceremony identifier, 36 characters long. Nothing else can be
/// promised of a random value.
#[verifier::external_body]
fn fresh_ceremony_id() -> (r: String)
    ensures
        r@.len() == 36,
{
    uuid::Uuid::new_v4().to_string()
}

/// The scheme-and-separator prefix of an origin.
pub open spec fn scheme_bytes(https: bool) -> Seq<u8> {
    if https {
        seq![104u8, 116u8, 116u8, 112u8, 115u8, 58u8, 47u8, 47u8]
    } else {
        seq![104u8, 116u8, 116u8, 112u8, 58u8, 47u8, 47u8]
    }
}

/// Is `i` the position of the first colon of `h`?
pub open spec fn is_first_colon(h: Seq<u8>, i: int) -> bool {
    &&& 0 <= i < h.len()
    &&& h[i] == 58
    &&& forall|j: int| 0 <= j < i ==> h[j] != 58
}

/// Derive the relying-party origin from the current request's scheme and
/// host-and-port bytes: scheme, separator, then the host up to its first
/// colon, validated as a URL. A host without a port separator or an origin
/// that does not parse is refused.
pub fn derive_rp_origin(https: bool, host: &[u8]) -> (r: Result<String, CeremonyError>)
    ensures
        r matches Ok(o) ==> (exists|i: int|
            is_first_colon(host@, i) && encode_utf8(o@) == scheme_bytes(https) + host@.subrange(
                0,
                i,
            )) && url_ok(o@),
        r is Err ==> r == Err::<String, CeremonyError>(CeremonyError::BadOrigin),
        (forall|i: int| !is_first_colon(host@, i)) ==> r is Err,
        forall|o: Seq<char>, i: int|
            is_first_colon(host@, i) && encode_utf8(o) == scheme_bytes(https) + host@.subrange(
                0,
                i,
            ) && url_ok(o) ==> r is Ok,
{
    let mut i: usize = 0;
    while i < host.len() && host[i] != 58
        invariant
            i <= host@.len(),
            forall|j: int| 0 <= j < i ==> host@[j] != 58,
        decreases host@.len() - i,
    {
        i = i + 1;
    }
    if i == host.len() {
        return Err(CeremonyError::BadOrigin);
    }
    assert(is_first_colon(host@, i as int));
    let mut bytes: Vec<u8> = Vec::new();
    bytes.push(104);
    bytes.push(116);
    bytes.push(116);
    bytes.push(112);
    if https {
        bytes.push(115);
    }
    bytes.push(58);
    bytes.push(47);
    bytes.push(47);
    bytes.extend_from_slice(&host[0..i]);
    let ghost built = bytes@;
    proof {
        assert(built =~= scheme_bytes(https) + host@.subrange(0, i as int));
    }
    let origin = match bytes_to_string(bytes) {
        Ok(s) => s,
        Err(_) => {
            proof {
                assert forall|o: Seq<char>, i2: int|
                    !(is_first_colon(host@, i2) && encode_utf8(o) == scheme_bytes(https)
                        + host@.subrange(0, i2) && url_ok(o)) by {
                    if is_first_colon(host@, i2) && encode_utf8(o) == scheme_bytes(https)
                        + host@.subrange(0, i2) {
                        assert(i2 == i as int) by {
                            if i2 < i as int {
                                assert(host@[i2] != 58);
                            }
                            if i2 > i as int {
                                assert(host@[i as int] != 58);
                            }
                        }
                        encode_utf8_valid_utf8(o);
                    }
                }
            }
            return Err(CeremonyError::BadOrigin);
        },
    };
    proof {
        decode_utf8_encode_utf8(built);
    }
    match parse_url(origin.as_str()) {
        Ok(_) => Ok(origin),
        Err(_) => {
            proof {
                assert forall|o: Seq<char>, i2: int|
                    !(is_first_colon(host@, i2) && encode_utf8(o) == scheme_bytes(https)
                        + host@.subrange(0, i2) && url_ok(o)) by {
                    if is_first_colon(host@, i2) && encode_utf8(o) == scheme_bytes(https)
                        + host@.subrange(0, i2) {
                        assert(i2 == i as int) by {
                            if i2 < i as int {
                                assert(host@[i2] != 58);
                            }
                            if i2 > i as int {
                                assert(host@[i as int] != 58);
                            }
                        }
                        encode_utf8_decode_utf8(o);
                        assert(o == origin@);
                    }
                }
            }
            Err(CeremonyError::BadOrigin)
        },
    }
}

/// Server-held state of one outstanding ceremony, keyed by a fresh random
/// identifier — never by the user id alone, so concurrent ceremonies for
/// one user share no mutable state.
#[derive(Debug, Clone)]
pub struct CeremonyState {
    pub ceremony_id: String,
    pub user_id: String,
    pub origin: String,
    pub state_blob: String,
    pub expires: u64,
}

/// The outstanding ceremonies, modelled as the sequence of rows the
/// server-side store would hold.
pub struct CeremonyStore {
    pub ceremonies: Vec<CeremonyState>,
}

/// The index of the first ceremony with the given id, if any.
pub open spec fn spec_find_ceremony(s: Seq<CeremonyState>, cid: Seq<char>) -> Option<int>
    decreases s.len(),
{
    if s.len() == 0 {
        None
    } else if s[0].ceremony_id@ == cid {
        Some(0)
    } else {
        match spec_find_ceremony(s.drop_first(), cid) {
            Some(i) => Some(i + 1),
            None => None,
        }
    }
}

/// A first match at `i` pins the find result.
proof fn lemma_find_ceremony_at(s: Seq<CeremonyState>, cid: Seq<char>, i: int)
    requires
        0 <= i < s.len(),
        s[i].ceremony_id@ == cid,
        forall|j: int| 0 <= j < i ==> (#[trigger] s[j]).ceremony_id@ != cid,
    ensures
        spec_find_ceremony(s, cid) == Some(i),
    decreases i,
{
    if i > 0 {
        assert(forall|j: int| 0 <= j < i - 1 ==> (#[trigger] s.drop_first()[j]).ceremony_id@
            != cid);
        lemma_find_ceremony_at(s.drop_first(), cid, i - 1);
    }
}

/// No match anywhere means no find result.
proof fn lemma_find_ceremony_none(s: Seq<CeremonyState>, cid: Seq<char>)
    requires
        forall|j: int| 0 <= j < s.len() ==> (#[trigger] s[j]).ceremony_id@ != cid,
    ensures
        spec_find_ceremony(s, cid) is None,
    decreases s.len(),
{
    if s.len() > 0 {
        lemma_find_ceremony_none(s.drop_first(), cid);
    }
}

impl CeremonyStore {
    /// An empty store: no ceremony is outstanding.
    pub fn new() -> (s: CeremonyStore)
        ensures
            s.ceremonies@.len() == 0,
    {
        CeremonyStore { ceremonies: Vec::new() }
    }

    /// Consume the ceremony with the given id: whatever the outcome of the
    /// checks, a found ceremony is removed — state is single use, spent by
    /// one attempt. The state comes back only when the ceremony exists, has
    /// not expired, and was started under exactly the submitted origin; an
    /// unknown id, a passed expiry and an origin mismatch are one and the
    /// same failure.
    pub fn take_ceremony(&mut self, ceremony_id: &String, origin: &String, now: u64) -> (r: Result<
        CeremonyState,
        CeremonyError,
    >)
        ensures
            spec_find_ceremony(old(self).ceremonies@, ceremony_id@) is None ==> r == Err::<
                CeremonyState,
                CeremonyError,
            >(CeremonyError::CeremonyFailed) && final(self).ceremonies@ == old(self).ceremonies@,
            spec_find_ceremony(old(self).ceremonies@, ceremony_id@) matches Some(i) ==> {
                &&& final(self).ceremonies@ == old(self).ceremonies@.remove(i)
                &&& (now < old(self).ceremonies@[i].expires && old(self).ceremonies@[i].origin@
                    == origin@ ==> r == Ok::<CeremonyState, CeremonyError>(
                    old(self).ceremonies@[i],
                ))
                &&& (!(now < old(self).ceremonies@[i].expires && old(self).ceremonies@[i].origin@
                    == origin@) ==> r == Err::<CeremonyState, CeremonyError>(
                    CeremonyError::CeremonyFailed,
                ))
            },
            r matches Ok(c) ==> c.origin@ == origin@ && now < c.expires && c.ceremony_id@
                == ceremony_id@,
    {
        let ghost orig = self.ceremonies@;
        let mut i: usize = 0;
        while i < self.ceremonies.len()
            invariant
                self.ceremonies@ == orig,
                orig == old(self).ceremonies@,
                i <= orig.len(),
                forall|j: int| 0 <= j < i ==> (#[trigger] orig[j]).ceremony_id@ != ceremony_id@,
            decreases orig.len() - i,
        {
            if self.ceremonies[i].ceremony_id == *ceremony_id {
                proof {
                    lemma_find_ceremony_at(orig, ceremony_id@, i as int);
                }
                let entry = self.ceremonies.remove(i);
                if now >= entry.expires {
                    return Err(CeremonyError::CeremonyFailed);
                }
                if entry.origin != *origin {
                    return Err(CeremonyError::CeremonyFailed);
                }
                return Ok(entry);
            }
            i = i + 1;
        }
        proof {
            lemma_find_ceremony_none(orig, ceremony_id@);
        }
        Err(CeremonyError::CeremonyFailed)
    }

    /// Start a registration ceremony: bind the verifier to the submitted
    /// origin, let it draw a fresh challenge under a fresh random user
    /// handle, and retain the server-side state under a fresh ceremony id
    /// expiring `ttl` seconds after `now`. Returns the ceremony id and the
    /// challenge body for the client.
    pub fn start_registration(
        &mut self,
        user_id: &String,
        rp_id: &String,
        origin: &String,
        now: u64,
        ttl: u64,
    ) -> (r: Result<(String, String), CeremonyError>)
        requires
            now + ttl <= u64::MAX,
        ensures
            r is Err ==> final(self).ceremonies@ == old(self).ceremonies@,
            !url_ok(origin@) ==> r == Err::<(String, String), CeremonyError>(
                CeremonyError::BadOrigin,
            ),
            r == Err::<(String, String), CeremonyError>(CeremonyError::BadOrigin) ==> !url_ok(
                origin@,
            ),
            r matches Ok(out) ==> {
                &&& final(self).ceremonies@.len() == old(self).ceremonies@.len() + 1
                &&& final(self).ceremonies@.drop_last() =~= old(self).ceremonies@
                &&& final(self).ceremonies@.last().ceremony_id@ == out.0@
                &&& final(self).ceremonies@.last().user_id@ == user_id@
                &&& final(self).ceremonies@.last().origin@ == origin@
                &&& final(self).ceremonies@.last().expires == now + ttl
                &&& state_parses(final(self).ceremonies@.last().state_blob@)
            },
    {
        let url = match parse_url(origin.as_str()) {
            Ok(u) => u,
            Err(_) => {
                return Err(CeremonyError::BadOrigin);
            },
        };
        let wa = match build_webauthn(rp_id.as_str(), &url) {
            Ok(w) => w,
            Err(_) => {
                return Err(CeremonyError::CeremonyFailed);
            },
        };
        let (ccr, state) = match webauthn_start(&wa, user_id.as_str()) {
            Ok(x) => x,
            Err(_) => {
                return Err(CeremonyError::CeremonyFailed);
            },
        };
        let challenge = match challenge_json(&ccr) {
            Ok(c) => c,
            Err(_) => {
                return Err(CeremonyError::CeremonyFailed);
            },
        };
        let state_blob = match state_to_json(&state) {
            Ok(s) => s,
            Err(_) => {
                return Err(CeremonyError::CeremonyFailed);
            },
        };
        let ceremony_id = fresh_ceremony_id();
        self.ceremonies.push(
            CeremonyState {
                ceremony_id: ceremony_id.clone(),
                user_id: user_id.clone(),
                origin: origin.clone(),
                state_blob,
                expires: now + ttl,
            },
        );
        proof {
            assert(final(self).ceremonies@.drop_last() =~= old(self).ceremonies@);
        }
        Ok((ceremony_id, challenge))
    }

    /// Finish a registration ceremony: consume the stored state — one
    /// attempt spends it — demand the origin the ceremony was started
    /// under, and only then check the client's credential against the
    /// stored state cryptographically. An unknown or spent id, a passed
    /// expiry, an origin mismatch, an unreadable stored state and a failed
    /// verification are all exactly the ceremony failure, never downgraded;
    /// only a credential that does not even parse is the bad-data failure;
    /// and success comes precisely when the credential verifies against the
    /// stored state under the ceremony's own origin.
    pub fn finish_registration(
        &mut self,
        ceremony_id: &String,
        rp_id: &String,
        origin: &String,
        credential_json: &String,
        now: u64,
    ) -> (r: Result<(), CeremonyError>)
        ensures
            spec_find_ceremony(old(self).ceremonies@, ceremony_id@) is None ==> r == Err::<
                (),
                CeremonyError,
            >(CeremonyError::CeremonyFailed) && final(self).ceremonies@ == old(self).ceremonies@,
            spec_find_ceremony(old(self).ceremonies@, ceremony_id@) matches Some(i)
                ==> final(self).ceremonies@ == old(self).ceremonies@.remove(i),
            spec_find_ceremony(old(self).ceremonies@, ceremony_id@) matches Some(i) ==> {
                let c = old(self).ceremonies@[i];
                &&& (!(now < c.expires && c.origin@ == origin@) ==> r == Err::<(), CeremonyError>(
                    CeremonyError::CeremonyFailed,
                ))
                &&& (now < c.expires && c.origin@ == origin@ ==> {
                    &&& (!cred_parses(credential_json@) ==> r == Err::<(), CeremonyError>(
                        CeremonyError::BadCeremonyData,
                    ))
                    &&& (cred_parses(credential_json@) && !state_parses(c.state_blob@) ==> r
                        == Err::<(), CeremonyError>(CeremonyError::CeremonyFailed))
                    &&& (cred_parses(credential_json@) && state_parses(c.state_blob@) ==> {
                        &&& (r is Ok <==> ceremony_verifies(
                            rp_id@,
                            c.origin@,
                            credential_json@,
                            c.state_blob@,
                        ))
                        &&& (r is Err ==> r == Err::<(), CeremonyError>(
                            CeremonyError::CeremonyFailed,
                        ))
                    })
                })
            },
    {
        let entry = match self.take_ceremony(ceremony_id, origin, now) {
            Ok(e) => e,
            Err(e) => {
                return Err(e);
            },
        };
        match credential_from_json(credential_json.as_str()) {
            Ok(_) => {},
            Err(_) => {
                return Err(CeremonyError::BadCeremonyData);
            },
        }
        match state_from_json(entry.state_blob.as_str()) {
            Ok(_) => {},
            Err(_) => {
                return Err(CeremonyError::CeremonyFailed);
            },
        }
        match webauthn_verify_registration(
            rp_id.as_str(),
            entry.origin.as_str(),
            credential_json.as_str(),
            entry.state_blob.as_str(),
        ) {
            Ok(_) => Ok(()),
            Err(_) => Err(CeremonyError::CeremonyFailed),
        }
    }
}

} // verus!
