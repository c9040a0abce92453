//! Authentication: which requests are public, the bearer token of an
//! authorization header, and the payload of a JWT.
use vstd::prelude::*;
use base64::engine::general_purpose::URL_SAFE_NO_PAD;
use base64::Engine;
use crate::shared::error::StoreError;
use crate::text::{
    chars_of, concat, contains, ends_with, has_infix, has_prefix, has_suffix, owned, push_char,
    starts_with, string_of,
};

verus! {

/// The claims of an identity token that the services read.
#[derive(Debug)]
pub struct Claims {
    pub sub: String,
    pub email_verified: Option<bool>,
    pub iss: String,
    pub cognito_username: Option<String>,
    pub origin_jti: Option<String>,
    pub aud: String,
    pub event_id: Option<String>,
    pub token_use: Option<String>,
    pub auth_time: Option<usize>,
    pub exp: usize,
    pub iat: usize,
    pub jti: Option<String>,
    pub email: Option<String>,
}

/// The pieces of `s` between occurrences of `sep`, in order, as `str::split`
/// yields them: one more piece than there are separators.
pub open spec fn split_on(s: Seq<char>, sep: char) -> Seq<Seq<char>>
    decreases s.len(),
{
    if s.len() == 0 {
        seq![Seq::<char>::empty()]
    } else {
        let prev = split_on(s.drop_last(), sep);
        if s.last() == sep {
            prev.push(Seq::<char>::empty())
        } else {
            prev.update(prev.len() - 1, prev.last().push(s.last()))
        }
    }
}

/// Splitting always gives at least one piece.
pub proof fn lemma_split_nonempty(s: Seq<char>, sep: char)
    ensures
        split_on(s, sep).len() >= 1,
    decreases s.len(),
{
    if s.len() > 0 {
        lemma_split_nonempty(s.drop_last(), sep);
    }
}

/// The pieces of a string between occurrences of a separator.
pub fn split_chars(s: &str, sep: char) -> (r: Vec<String>)
    ensures
        r@.len() == split_on(s@, sep).len(),
        forall|i: int| 0 <= i < r@.len() ==> #[trigger] r@[i]@ == split_on(s@, sep)[i],
{
    let cs = chars_of(s);
    let mut parts: Vec<String> = Vec::new();
    let mut cur = String::new();
    let mut i: usize = 0;
    while i < cs.len()
        invariant
            cs@ == s@,
            i <= cs@.len(),
            parts@.len() + 1 == split_on(s@.subrange(0, i as int), sep).len(),
            forall|k: int|
                0 <= k < parts@.len() ==> #[trigger] parts@[k]@ == split_on(
                    s@.subrange(0, i as int),
                    sep,
                )[k],
            cur@ == split_on(s@.subrange(0, i as int), sep).last(),
        decreases cs@.len() - i,
    {
        let c = cs[i];
        let ghost before = s@.subrange(0, i as int);
        let ghost after = s@.subrange(0, i + 1);
        assert(after.drop_last() =~= before);
        assert(after.last() == c);
        proof {
            lemma_split_nonempty(before, sep);
        }
        if c == sep {
            parts.push(cur);
            cur = String::new();
            assert(cur@ =~= Seq::<char>::empty());
        } else {
            push_char(&mut cur, c);
        }
        i = i + 1;
    }
    assert(s@.subrange(0, cs@.len() as int) =~= s@);
    proof {
        lemma_split_nonempty(s@, sep);
    }
    parts.push(cur);
    parts
}

/// What a URL-safe, unpadded base64 text decodes to, if it is valid
/// (`base64::engine::general_purpose::URL_SAFE_NO_PAD`).
pub uninterp spec fn base64_url_decoded(text: Seq<char>) -> Option<Seq<u8>>;

/// Decodes URL-safe base64 without padding
/// (`base64::Engine::decode` on `URL_SAFE_NO_PAD`); `None` where the text is
/// not valid.
#[verifier::external_body]
fn decode_base64_url(text: &str) -> (r: Option<Vec<u8>>)
    ensures
        match r {
            Some(v) => base64_url_decoded(text@) == Some(v@),
            None => base64_url_decoded(text@) is None,
        },
{
    URL_SAFE_NO_PAD.decode(text).ok()
}

/// The bytes of a JWT's payload: the token must have three dot-separated
/// parts, and the middle one must be URL-safe base64 without padding.
pub fn jwt_payload(token: &str) -> (r: Result<Vec<u8>, StoreError>)
    ensures
        split_on(token@, '.').len() != 3 ==> (r matches Err(StoreError::AuthError(m)) && m@
            == "Invalid JWT format"@),
        split_on(token@, '.').len() == 3 ==> match base64_url_decoded(split_on(token@, '.')[1]) {
            Some(b) => r matches Ok(v) && v@ == b,
            None => r matches Err(StoreError::AuthError(m)) && m@
                == "Could not decode JWT payload"@,
        },
{
    let parts = split_chars(token, '.');
    if parts.len() != 3 {
        return Err(StoreError::AuthError(owned("Invalid JWT format")));
    }
    assert(parts@[1]@ == split_on(token@, '.')[1]);
    match decode_base64_url(parts[1].as_str()) {
        Some(bytes) => Ok(bytes),
        None => Err(StoreError::AuthError(owned("Could not decode JWT payload"))),
    }
}

/// The claims read from a JWT payload, or the error for a payload that did
/// not parse as claims.
pub fn parsed_claims(parsed: Option<Claims>) -> (r: Result<Claims, StoreError>)
    ensures
        match parsed {
            Some(c) => r == Ok::<Claims, StoreError>(c),
            None => r matches Err(StoreError::AuthError(m)) && m@
                == "Could not parse JWT claims"@,
        },
{
    match parsed {
        Some(c) => Ok(c),
        None => Err(StoreError::AuthError(owned("Could not parse JWT claims"))),
    }
}

/// Requests that need no authentication: health checks, and reading an
/// invitation.
pub open spec fn is_public(path: Seq<char>, is_get: bool) -> bool {
    has_suffix(path, "/health"@) || (has_infix(path, "/invitations/"@) && is_get)
}

/// Whether a request to `path` (a GET if `is_get`) needs no authentication.
pub fn is_public_path(path: &str, is_get: bool) -> (r: bool)
    ensures
        r == is_public(path@, is_get),
{
    ends_with(path, "/health") || (contains(path, "/invitations/") && is_get)
}

/// The value of an authorization header that carries `token`.
pub open spec fn bearer_value(token: Seq<char>) -> Seq<char> {
    "Bearer "@ + token
}

/// The token an authorization header value carries, if it has the bearer
/// form.
pub open spec fn bearer_token_of(value: Seq<char>) -> Option<Seq<char>> {
    if has_prefix(value, "Bearer "@) {
        Some(value.subrange(7, value.len() as int))
    } else {
        None
    }
}

/// The token of a bearer authorization value.
pub fn bearer_token(value: &str) -> (r: Option<String>)
    ensures
        match bearer_token_of(value@) {
            Some(t) => r matches Some(s) && s@ == t,
            None => r is None,
        },
{
    proof {
        reveal_strlit("Bearer ");
    }
    if starts_with(value, "Bearer ") {
        let cs = chars_of(value);
        Some(string_of(&cs, 7, cs.len()))
    } else {
        None
    }
}

/// The authorization header for a token: its name and its bearer value.
pub fn bearer_header(token: &str) -> (r: (String, String))
    ensures
        r.0@ == "authorization"@,
        r.1@ == bearer_value(token@),
{
    (owned("authorization"), concat("Bearer ", token))
}

/// Reading back the token of a bearer header gives the token that was put
/// in.
pub proof fn lemma_bearer_round_trip(token: Seq<char>)
    ensures
        bearer_token_of(bearer_value(token)) == Some(token),
{
    reveal_strlit("Bearer ");
    let v = bearer_value(token);
    assert(v.subrange(0, 7) =~= "Bearer "@);
    assert(v.subrange(7, v.len() as int) =~= token);
}

/// The authorization header of a request, as far as it could be read.
pub enum AuthorizationHeader {
    /// There is no authorization header.
    Missing,
    /// The header is there but is not visible ASCII text.
    Unreadable,
    /// The header's text.
    Text(String),
}

/// What to do with a request before it reaches a handler.
pub enum AuthDecision {
    /// Let it through without authentication.
    Pass,
    /// Answer 401 Unauthorized with this message.
    Reject(String),
    /// Decode this bearer token to find the user.
    Decode(String),
}

/// The authentication step for a request: public paths pass; otherwise the
/// request needs a readable bearer authorization header, whose token is to
/// be decoded.
pub fn auth_decision(path: &str, is_get: bool, header: &AuthorizationHeader) -> (r: AuthDecision)
    ensures
        is_public(path@, is_get) ==> r is Pass,
        !is_public(path@, is_get) ==> match header {
            AuthorizationHeader::Missing => r matches AuthDecision::Reject(m) && m@
                == "Missing authorization header"@,
            AuthorizationHeader::Unreadable => r matches AuthDecision::Reject(m) && m@
                == "Invalid authorization header format"@,
            AuthorizationHeader::Text(h) => match bearer_token_of(h@) {
                Some(t) => r matches AuthDecision::Decode(s) && s@ == t,
                None => r matches AuthDecision::Reject(m) && m@
                    == "Invalid authorization format. Expected 'Bearer <token>'"@,
            },
        },
{
    if is_public_path(path, is_get) {
        return AuthDecision::Pass;
    }
    match header {
        AuthorizationHeader::Missing => AuthDecision::Reject(owned("Missing authorization header")),
        AuthorizationHeader::Unreadable => AuthDecision::Reject(
            owned("Invalid authorization header format"),
        ),
        AuthorizationHeader::Text(h) => match bearer_token(h.as_str()) {
            Some(t) => AuthDecision::Decode(t),
            None => AuthDecision::Reject(
                owned("Invalid authorization format. Expected 'Bearer <token>'"),
            ),
        },
    }
}

/// The user a decoded token names, or the 401 message for a token that
/// could not be decoded.
pub fn authenticated_user(decoded: Result<Claims, StoreError>) -> (r: Result<String, String>)
    ensures
        match decoded {
            Ok(c) => r == Ok::<String, String>(c.sub),
            Err(_) => r matches Err(m) && m@ == "Could not decode JWT payload"@,
        },
{
    match decoded {
        Ok(c) => Ok(c.sub),
        Err(_) => Err(owned("Could not decode JWT payload")),
    }
}

/// What the payload part of a JWT decodes to: the token must have three
/// dot-separated parts, the middle one URL-safe base64 without padding.
pub open spec fn token_payload(token: Seq<char>) -> Option<Seq<u8>> {
    if split_on(token, '.').len() == 3 {
        base64_url_decoded(split_on(token, '.')[1])
    } else {
        None
    }
}

/// Whether `jsonwebtoken::decode`, with `DecodingKey::from_secret(key)` and
/// `Validation::default()` (an HS256 signature by `key`, and an `exp` claim
/// that has not passed, with 60 seconds' leeway), accepts the token, its
/// claims read as any JSON value. The answer depends on the time of the
/// call, so nothing is stated of it. The crate panics only where the
/// machine's clock reads earlier than 1970.
#[verifier::external_body]
fn jwt_passes_validation(token: &str, key: &Vec<u8>) -> (r: bool) {
    jsonwebtoken::decode::<serde_json::Value>(
        token,
        &jsonwebtoken::DecodingKey::from_secret(key.as_slice()),
        &jsonwebtoken::Validation::default(),
    ).is_ok()
}

/// The payload of a token whose validation gave `valid`: refused with 401
/// when it did not pass, or when its payload cannot be read.
pub fn payload_if_valid(valid: bool, token: &str) -> (r: Result<Vec<u8>, u16>)
    ensures
        match r {
            Ok(v) => valid && token_payload(token@) == Some(v@),
            Err(code) => code == 401 && (!valid || token_payload(token@) is None),
        },
{
    if !valid {
        return Err(401);
    }
    match jwt_payload(token) {
        Ok(v) => Ok(v),
        Err(_) => Err(401),
    }
}

/// The payload of a bearer token validated with `key`, or 401 when the
/// token does not pass validation or its payload cannot be read.
pub fn validated_payload(token: &str, key: &Vec<u8>) -> (r: Result<Vec<u8>, u16>)
    ensures
        match r {
            Ok(v) => token_payload(token@) == Some(v@),
            Err(code) => code == 401,
        },
{
    let valid = jwt_passes_validation(token, key);
    payload_if_valid(valid, token)
}

/// The user a validated token names: the subject its claims were read to
/// have, or 401 when they could not be read.
pub fn validated_user(decoded: Result<String, ()>) -> (r: Result<String, u16>)
    ensures
        match decoded {
            Ok(s) => r == Ok::<String, u16>(s),
            Err(_) => r == Err::<String, u16>(401),
        },
{
    match decoded {
        Ok(s) => Ok(s),
        Err(_) => Err(401),
    }
}

} // verus!
