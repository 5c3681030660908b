//! Session tokens: signed, time-limited credentials proving identity
//! without server-side session storage.
//!
//! A token embeds the subject name, the user id, the role and an expiry
//! timestamp, and is signed with a server-held secret under a symmetric
//! MAC scheme. Verification checks the signature first and the expiry
//! second, and keeps the two failures apart. A token reaches the server
//! either in a bearer-authorization header or in a cookie, checked in
//! that order; absence is kept apart from malformation.

use vstd::prelude::*;
use vstd::string::StringSliceAdditionalSpecFns;
use crate::errors::ServiceError;
use crate::strutil::{
    contains_seq, contains_substr, find_substr, first_match_index, lemma_first_match_index_none,
    lemma_first_match_index_some, lemma_trim_preserves_contains, matches_at, split_spec,
    split_str, trim_spec, trim_str,
};

verus! {

/// The decoded payload of a session token.
#[derive(Debug)]
pub struct Claims {
    pub sub: String,
    pub id: u32,
    pub role: u8,
    pub exp: u64,
}

/// A raw, still unverified session token.
#[derive(Debug)]
pub struct JWT(pub String);

/// How many seconds an issued token stays valid.
pub const TOKEN_TTL_SECONDS: u64 = 7200;

/// What `jsonwebtoken::encode` produces for these claims under this
/// secret. The result depends on the arguments alone.
pub uninterp spec fn jwt_encoding(
    sub: Seq<char>,
    id: u64,
    role: u64,
    exp: u64,
    secret: Seq<u8>,
) -> Seq<char>;

/// What `jsonwebtoken::decode` recovers from this token under this
/// secret, with the expiry check left to the caller: `None` where the
/// token is malformed or its signature does not verify under the secret.
/// The result depends on the arguments alone.
pub uninterp spec fn jwt_decoding(token: Seq<char>, secret: Seq<u8>) -> Option<
    (Seq<char>, u64, u64, u64),
>;

/// Relies on `jsonwebtoken::encode` with an HS256 header: the output is a
/// function of claims and secret alone, `jsonwebtoken::decode` under the
/// same secret recovers exactly the claims that went in, and encoding
/// under a symmetric key with the default header cannot fail.
#[verifier::external_body]
fn jwt_encode(claims: &Claims, secret: &[u8]) -> (r: Option<String>)
    ensures
        r is Some,
        r matches Some(t) ==> t@ == jwt_encoding(
            claims.sub@,
            claims.id as u64,
            claims.role as u64,
            claims.exp,
            secret@,
        ) && jwt_decoding(t@, secret@) == Some(
            (claims.sub@, claims.id as u64, claims.role as u64, claims.exp),
        ),
{
    let mut m = serde_json::Map::new();
    m.insert("sub".to_owned(), serde_json::Value::String(claims.sub.clone()));
    m.insert("id".to_owned(), serde_json::Value::from(claims.id));
    m.insert("role".to_owned(), serde_json::Value::from(claims.role));
    m.insert("exp".to_owned(), serde_json::Value::from(claims.exp));
    jsonwebtoken::encode(
        &jsonwebtoken::Header::default(),
        &serde_json::Value::Object(m),
        &jsonwebtoken::EncodingKey::from_secret(secret),
    ).ok()
}

/// Relies on `jsonwebtoken::decode` restricted to HS256, with the expiry
/// check disabled so that the result is a function of token and secret
/// alone: the signature is verified against the secret and the four
/// claims are read back out. One consequence of the default validation:
/// a correctly signed token that itself carries an `aud` claim is
/// rejected, since no accepted audience is configured here.
#[verifier::external_body]
fn jwt_decode(token: &str, secret: &[u8]) -> (r: Option<(String, u64, u64, u64)>)
    ensures
        match r {
            Some(t) => jwt_decoding(token@, secret@) == Some((t.0@, t.1, t.2, t.3)),
            None => jwt_decoding(token@, secret@) is None,
        },
{
    let mut validation = jsonwebtoken::Validation::new(jsonwebtoken::Algorithm::HS256);
    validation.validate_exp = false;
    validation.required_spec_claims.clear();
    let key = jsonwebtoken::DecodingKey::from_secret(secret);
    let data = jsonwebtoken::decode::<serde_json::Value>(token, &key, &validation).ok()?;
    let sub = data.claims.get("sub")?.as_str()?.to_owned();
    let id = data.claims.get("id")?.as_u64()?;
    let role = data.claims.get("role")?.as_u64()?;
    let exp = data.claims.get("exp")?.as_u64()?;
    Some((sub, id, role, exp))
}

/// Encodes claims into a signed token string; issuance never fails.
pub fn encode_claims(claims: &Claims, secret: &str) -> (r: Result<String, ServiceError>)
    ensures
        r matches Ok(t) && t@ == jwt_encoding(
            claims.sub@,
            claims.id as u64,
            claims.role as u64,
            claims.exp,
            secret.spec_bytes(),
        ) && jwt_decoding(t@, secret.spec_bytes()) == Some(
            (claims.sub@, claims.id as u64, claims.role as u64, claims.exp),
        ),
{
    match jwt_encode(claims, secret.as_bytes()) {
        Some(t) => Ok(t),
        None => Err(ServiceError::InternalServerError),
    }
}

/// How a decoded token is judged at time `now`: a token that does not
/// decode is invalid; claims whose id or role overflow their fields are
/// invalid; an expiry at or before `now` is expired; the rest passes.
pub open spec fn spec_claims_outcome(d: Option<(Seq<char>, u64, u64, u64)>, now: u64) -> Result<
    (Seq<char>, u64, u64, u64),
    ServiceError,
> {
    match d {
        None => Err(ServiceError::TokenInvalid),
        Some((sub, id, role, exp)) => {
            if id > u32::MAX as u64 || role > u8::MAX as u64 {
                Err(ServiceError::TokenInvalid)
            } else if exp <= now {
                Err(ServiceError::TokenExpired)
            } else {
                Ok((sub, id, role, exp))
            }
        },
    }
}

/// Verifies a token: signature first, then expiry, the two failures kept
/// apart. Succeeds exactly when the token decodes under the secret, its
/// id and role fit their fields, and its expiry lies after `now`.
pub fn extract_claims(jwt: &str, secret: &str, now: u64) -> (r: Result<Claims, ServiceError>)
    ensures
        match (r, spec_claims_outcome(jwt_decoding(jwt@, secret.spec_bytes()), now)) {
            (Ok(c), Ok((sub, id, role, exp))) => c.sub@ == sub && c.id == id && c.role == role
                && c.exp == exp,
            (Err(e), Err(se)) => e == se,
            _ => false,
        },
{
    match jwt_decode(jwt, secret.as_bytes()) {
        None => Err(ServiceError::TokenInvalid),
        Some((sub, id, role, exp)) => {
            if id > u32::MAX as u64 || role > u8::MAX as u64 {
                Err(ServiceError::TokenInvalid)
            } else if exp <= now {
                Err(ServiceError::TokenExpired)
            } else {
                Ok(Claims { sub, id: id as u32, role: role as u8, exp })
            }
        },
    }
}

/// A token issued with the fixed TTL is rejected as expired whenever it
/// is verified later than its expiry, and passes an hour after issuance,
/// its signature and fields permitting.
pub proof fn lemma_token_expiry(
    sub: Seq<char>,
    id: u64,
    role: u64,
    issued_at: u64,
    now: u64,
)
    requires
        id <= u32::MAX,
        role <= u8::MAX,
        issued_at + TOKEN_TTL_SECONDS <= u64::MAX,
    ensures
        now > issued_at + TOKEN_TTL_SECONDS ==> spec_claims_outcome(
            Some((sub, id, role, (issued_at + TOKEN_TTL_SECONDS) as u64)),
            now,
        ) == Err::<(Seq<char>, u64, u64, u64), ServiceError>(ServiceError::TokenExpired),
        now < issued_at + TOKEN_TTL_SECONDS ==> spec_claims_outcome(
            Some((sub, id, role, (issued_at + TOKEN_TTL_SECONDS) as u64)),
            now,
        ) == Ok::<(Seq<char>, u64, u64, u64), ServiceError>(
            (sub, id, role, (issued_at + TOKEN_TTL_SECONDS) as u64),
        ),
{
}

/// What bearer extraction yields from an authorization header: the
/// header's tail after the first `Bearer`, trimmed; or invalidity where
/// no `Bearer` occurs.
pub open spec fn spec_bearer_extract(h: Seq<char>) -> Result<Seq<char>, ServiceError> {
    match first_match_index(h, "Bearer"@) {
        None => Err(ServiceError::TokenInvalid),
        Some(i) => Ok(trim_spec(h.skip(i + "Bearer"@.len()))),
    }
}

/// Extracts the token from a bearer-authorization header, when one was
/// sent at all.
pub fn extract_jwt_from_authorization_header(header: Option<&str>) -> (r: Option<
    Result<JWT, ServiceError>,
>)
    ensures
        match (header, r) {
            (None, None) => true,
            (Some(h), Some(res)) => match (res, spec_bearer_extract(h@)) {
                (Ok(j), Ok(t)) => j.0@ == t,
                (Err(e), Err(se)) => e == se,
                _ => false,
            },
            _ => false,
        },
{
    let h = match header {
        Some(h) => h,
        None => {
            return None;
        },
    };
    match find_substr(h, "Bearer") {
        None => {
            proof {
                lemma_first_match_index_none(h@, "Bearer"@);
            }
            Some(Err(ServiceError::TokenInvalid))
        },
        Some(i) => {
            proof {
                lemma_first_match_index_some(h@, "Bearer"@, i as int);
            }
            let blen = "Bearer".unicode_len();
            let hlen = h.unicode_len();
            let tail = h.substring_char(i + blen, hlen);
            let token = trim_str(tail);
            proof {
                assert(tail@ =~= h@.skip(i + "Bearer"@.len()));
            }
            Some(Ok(JWT(String::from_str(token))))
        },
    }
}

/// The position of the first segment containing `p`, if any.
pub open spec fn first_seg_index(segs: Seq<Seq<char>>, p: Seq<char>) -> Option<int>
    decreases segs.len(),
{
    if segs.len() == 0 {
        None
    } else if contains_seq(segs[0], p) {
        Some(0)
    } else {
        match first_seg_index(segs.drop_first(), p) {
            Some(i) => Some(i + 1),
            None => None,
        }
    }
}

/// The first matching segment, in the sense of a linear search, is what
/// `first_seg_index` returns.
proof fn lemma_first_seg_index_some(segs: Seq<Seq<char>>, p: Seq<char>, i: int)
    requires
        0 <= i < segs.len(),
        contains_seq(segs[i], p),
        forall|k: int| 0 <= k < i ==> !contains_seq(segs[k], p),
    ensures
        first_seg_index(segs, p) == Some(i),
    decreases segs.len(),
{
    if i > 0 {
        lemma_first_seg_index_some(segs.drop_first(), p, i - 1);
    }
}

/// Where no segment contains `p`, `first_seg_index` returns `None`.
proof fn lemma_first_seg_index_none(segs: Seq<Seq<char>>, p: Seq<char>)
    requires
        forall|k: int| 0 <= k < segs.len() ==> !contains_seq(segs[k], p),
    ensures
        first_seg_index(segs, p) is None,
    decreases segs.len(),
{
    if segs.len() > 0 {
        lemma_first_seg_index_none(segs.drop_first(), p);
    }
}

/// What cookie extraction yields from a cookie header: the first
/// space-separated segment naming the token cookie, trimmed and with the
/// cookie name removed; or absence where no segment names it.
pub open spec fn spec_cookie_extract(h: Seq<char>) -> Result<Seq<char>, ServiceError> {
    let segs = split_spec(h, ' ');
    match first_seg_index(segs, "triox_jwt="@) {
        None => Err(ServiceError::TokenMissing),
        Some(i) => Ok(trim_spec(segs[i]).skip("triox_jwt="@.len() as int)),
    }
}

/// Extracts the token from the cookie header, when one was sent at all.
pub fn extract_jwt_from_cookie_header(header: Option<&str>) -> (r: Option<
    Result<JWT, ServiceError>,
>)
    ensures
        match (header, r) {
            (None, None) => true,
            (Some(h), Some(res)) => match (res, spec_cookie_extract(h@)) {
                (Ok(j), Ok(t)) => j.0@ == t,
                (Err(e), Err(se)) => e == se,
                _ => false,
            },
            _ => false,
        },
{
    let h = match header {
        Some(h) => h,
        None => {
            return None;
        },
    };
    let parts = split_str(h, ' ');
    let ghost segs = split_spec(h@, ' ');
    let n = parts.len();
    let mut i: usize = 0;
    while i < n
        invariant
            n == parts@.len(),
            i <= n,
            header == Some(h),
            segs == split_spec(h@, ' '),
            parts@.map_values(|t: String| t@) == segs,
            forall|k: int| 0 <= k < i ==> !contains_seq(segs[k], "triox_jwt="@),
        decreases n - i,
    {
        proof {
            assert(parts@.map_values(|t: String| t@)[i as int] == parts@[i as int]@);
        }
        if contains_substr(parts[i].as_str(), "triox_jwt=") {
            proof {
                reveal_strlit("triox_jwt=");
                lemma_first_seg_index_some(segs, "triox_jwt="@, i as int);
                assert(forall|k: int|
                    0 <= k < "triox_jwt="@.len() ==> !crate::strutil::is_space("triox_jwt="@[k]));
                lemma_trim_preserves_contains(segs[i as int], "triox_jwt="@);
            }
            let cookie = trim_str(parts[i].as_str());
            let clen = cookie.unicode_len();
            let plen = "triox_jwt=".unicode_len();
            proof {
                let t = trim_spec(segs[i as int]);
                let j = choose|j: int| matches_at(t, "triox_jwt="@, j);
                assert(j + "triox_jwt="@.len() <= t.len());
            }
            let token = cookie.substring_char(plen, clen);
            proof {
                assert(token@ =~= trim_spec(segs[i as int]).skip("triox_jwt="@.len() as int));
                assert(first_seg_index(segs, "triox_jwt="@) == Some(i as int));
                assert(spec_cookie_extract(h@) == Ok::<Seq<char>, ServiceError>(token@));
            }
            return Some(Ok(JWT(String::from_str(token))));
        }
        i += 1;
    }
    proof {
        lemma_first_seg_index_none(segs, "triox_jwt="@);
    }
    Some(Err(ServiceError::TokenMissing))
}

/// Where a request's token comes from, in fixed precedence: a custom
/// header carrying the raw token, then the bearer-authorization header,
/// then the cookie; a request carrying none of the three has sent no
/// token.
pub open spec fn spec_token_from_request(
    token: Option<Seq<char>>,
    auth: Option<Seq<char>>,
    cookie: Option<Seq<char>>,
) -> Result<Seq<char>, ServiceError> {
    match token {
        Some(h) => Ok(trim_spec(h)),
        None => match auth {
            Some(h) => spec_bearer_extract(h),
            None => match cookie {
                Some(h) => spec_cookie_extract(h),
                None => Err(ServiceError::TokenMissing),
            },
        },
    }
}

impl JWT {
    /// Picks the raw token out of a request: the custom token header
    /// first, then the authorization header, then the cookie header;
    /// fails closed when none carries one.
    pub fn from_request(
        token_header: Option<&str>,
        auth_header: Option<&str>,
        cookie_header: Option<&str>,
    ) -> (r: Result<JWT, ServiceError>)
        ensures
            match (r, spec_token_from_request(
                match token_header {
                    Some(h) => Some(h@),
                    None => None,
                },
                match auth_header {
                    Some(h) => Some(h@),
                    None => None,
                },
                match cookie_header {
                    Some(h) => Some(h@),
                    None => None,
                },
            )) {
                (Ok(j), Ok(t)) => j.0@ == t,
                (Err(e), Err(se)) => e == se,
                _ => false,
            },
    {
        if let Some(raw) = token_header {
            Ok(JWT(String::from_str(trim_str(raw))))
        } else if let Some(res) = extract_jwt_from_authorization_header(auth_header) {
            res
        } else if let Some(res) = extract_jwt_from_cookie_header(cookie_header) {
            res
        } else {
            Err(ServiceError::TokenMissing)
        }
    }
}

} // verus!
