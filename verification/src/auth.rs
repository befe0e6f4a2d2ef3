//! Session credentials and the per-request guard.
//!
//! A credential is a signed, time-bound token binding a session identifier
//! (the subject) to an expiry; signing and verification are done by an
//! outside JWT library under a single process-wide symmetric key. The guard
//! extracts a bearer credential from raw header data — rejecting missing,
//! undecodable and wrongly-schemed headers each with its own error — and
//! collapses every verification failure into one undifferentiated
//! unauthorized outcome, so that a client cannot tell a bad signature from
//! an expired token.

use vstd::prelude::*;

use jwt_simple::algorithms::HS256Key;

verus! {

use vstd::string::StrSliceExecFns;

#[verifier::external_type_specification]
#[verifier::external_body]
pub struct ExHS256Key(HS256Key);

/// The claim a credential carries: the subject it was issued for.
#[derive(Debug)]
pub struct JwtClaim {
    pub uuid: String,
}

/// The largest credential lifetime the codec admits, in days.
///
/// The JWT library adds the lifetime to the current time with unchecked
/// arithmetic on epoch seconds kept in 32 bits of fixed point, so an
/// unbounded lifetime would overflow there. This bound keeps the sum in
/// range for decades beyond the library's own 32-bit time horizon margin.
pub const MAX_JWT_EXPIRE_DAYS: u64 = 9999;

/// The subject a credential embeds: jwt_simple stores it as the `sub`
/// field of the token's payload, so it is a pure function of the token's
/// text — `None` where the text embeds no subject.
pub uninterp spec fn token_subject(t: Seq<char>) -> Option<Seq<char>>;

/// Issues a credential for the claim, valid for `expire_days` days.
///
/// Relies on jwt_simple's HS256 `authenticate`: the returned token embeds
/// the claim's uuid as its subject and an expiry computed from the
/// current time, signed under `key`. The bound on `expire_days` keeps the
/// expiry inside coarsetime's 32-bit seconds, which `Claims::create` adds
/// to the clock unchecked. Within it, signing is JSON and base64 encoding
/// of plain structs plus an HMAC tag, none of which can fail, so a token
/// always comes back. Beyond its embedded subject, the token's text
/// depends on the signing key and on the clock, so nothing more is
/// stated about it.
#[verifier::external_body]
pub fn gen_jwt(key: &HS256Key, claim: &JwtClaim, expire_days: u64) -> (r: Option<String>)
    requires
        expire_days <= MAX_JWT_EXPIRE_DAYS,
    ensures
        r is Some,
        r matches Some(t) ==> token_subject(t@) == Some(claim.uuid@),
{
    let claims = jwt_simple::claims::Claims::create(
        jwt_simple::reexports::coarsetime::Duration::from_days(expire_days),
    ).with_subject(&claim.uuid);
    match jwt_simple::algorithms::MACLike::authenticate(key, claims) {
        Ok(token) => Some(token),
        Err(_) => None,
    }
}

/// Relies on jwt_simple's HS256 `verify_token`: the embedded subject comes
/// back, unchanged, only when the token decodes, its signature verifies
/// under `key`, and its expiry has not passed (with the library's default
/// tolerance). Whether it comes back depends on the key and the clock, so
/// only the returned subject's identity is stated.
#[verifier::external_body]
fn verify_token_subject(key: &HS256Key, token: &str) -> (r: Option<String>)
    ensures
        r matches Some(s) ==> token_subject(token@) == Some(s@),
{
    let checked = jwt_simple::algorithms::MACLike::verify_token::<
        jwt_simple::claims::NoCustomClaims,
    >(key, token, None);
    match checked {
        Ok(claims) => claims.subject,
        Err(_) => None,
    }
}

/// The ways a request can fail the guard before reaching any handler.
#[derive(Debug, Clone, Copy, PartialEq, Eq, Structural)]
pub enum AuthError {
    /// No authorization header arrived.
    MissingHeader,
    /// The header's bytes do not decode as text.
    InvalidHeader,
    /// The header does not use the bearer scheme.
    InvalidScheme,
    /// The credential failed verification: bad signature, undecodable
    /// payload or elapsed expiry, deliberately indistinguishable.
    Unauthorized,
}

/// The transport status class of each guard failure.
pub open spec fn auth_error_status(e: AuthError) -> u16 {
    match e {
        AuthError::MissingHeader => 401,
        AuthError::InvalidHeader => 400,
        AuthError::InvalidScheme => 400,
        AuthError::Unauthorized => 401,
    }
}

/// The human-readable message of each guard failure.
pub open spec fn auth_error_message(e: AuthError) -> Seq<char> {
    match e {
        AuthError::MissingHeader => "Missing authorization header."@,
        AuthError::InvalidHeader => "Invalid authorization header."@,
        AuthError::InvalidScheme => "Invalid authorization scheme."@,
        AuthError::Unauthorized => "Invalid or expired JWT."@,
    }
}

impl AuthError {
    /// The transport status class of this failure.
    pub fn status_code(&self) -> (r: u16)
        ensures
            r == auth_error_status(*self),
    {
        match self {
            AuthError::MissingHeader => 401,
            AuthError::InvalidHeader => 400,
            AuthError::InvalidScheme => 400,
            AuthError::Unauthorized => 401,
        }
    }

    /// The human-readable message of this failure.
    pub fn message(&self) -> (r: String)
        ensures
            r@ == auth_error_message(*self),
    {
        match self {
            AuthError::MissingHeader => "Missing authorization header.".to_owned(),
            AuthError::InvalidHeader => "Invalid authorization header.".to_owned(),
            AuthError::InvalidScheme => "Invalid authorization scheme.".to_owned(),
            AuthError::Unauthorized => "Invalid or expired JWT.".to_owned(),
        }
    }
}

/// Raw header data as the transport hands it over: absent, present but not
/// decodable as text, or present as text.
#[derive(Debug)]
pub enum AuthHeader {
    Missing,
    Undecodable,
    Present(String),
}

/// Whitespace as the header trim understands it.
pub open spec fn is_space_char(c: char) -> bool {
    c == ' ' || c == '\u{9}' || c == '\u{a}' || c == '\u{b}' || c == '\u{c}' || c == '\u{d}'
        || c == '\u{85}' || c == '\u{a0}' || c == '\u{1680}' || c == '\u{2000}' || c == '\u{2001}'
        || c == '\u{2002}' || c == '\u{2003}' || c == '\u{2004}' || c == '\u{2005}' || c
        == '\u{2006}' || c == '\u{2007}' || c == '\u{2008}' || c == '\u{2009}' || c == '\u{200a}'
        || c == '\u{2028}' || c == '\u{2029}' || c == '\u{202f}' || c == '\u{205f}' || c
        == '\u{3000}'
}

fn is_space(c: char) -> (r: bool)
    ensures
        r == is_space_char(c),
{
    c == ' ' || c == '\u{9}' || c == '\u{a}' || c == '\u{b}' || c == '\u{c}' || c == '\u{d}'
        || c == '\u{85}' || c == '\u{a0}' || c == '\u{1680}' || c == '\u{2000}' || c == '\u{2001}'
        || c == '\u{2002}' || c == '\u{2003}' || c == '\u{2004}' || c == '\u{2005}' || c
        == '\u{2006}' || c == '\u{2007}' || c == '\u{2008}' || c == '\u{2009}' || c == '\u{200a}'
        || c == '\u{2028}' || c == '\u{2029}' || c == '\u{202f}' || c == '\u{205f}' || c
        == '\u{3000}'
}

/// The text with its leading whitespace removed.
pub open spec fn trim_front(s: Seq<char>) -> Seq<char>
    decreases s.len(),
{
    if s.len() > 0 && is_space_char(s[0]) {
        trim_front(s.drop_first())
    } else {
        s
    }
}

/// The text with its trailing whitespace removed.
pub open spec fn trim_back(s: Seq<char>) -> Seq<char>
    decreases s.len(),
{
    if s.len() > 0 && is_space_char(s.last()) {
        trim_back(s.drop_last())
    } else {
        s
    }
}

/// The text with whitespace removed from both ends.
pub open spec fn trimmed(s: Seq<char>) -> Seq<char> {
    trim_back(trim_front(s))
}

proof fn lemma_trim_front_is_suffix(s: Seq<char>, a: int)
    requires
        0 <= a <= s.len(),
        forall|k: int| 0 <= k < a ==> is_space_char(#[trigger] s[k]),
        a == s.len() || !is_space_char(s[a]),
    ensures
        trim_front(s) == s.subrange(a, s.len() as int),
    decreases a,
{
    if a == 0 {
        assert(trim_front(s) =~= s.subrange(0, s.len() as int));
    } else {
        assert(is_space_char(s[0]));
        let rest = s.drop_first();
        assert(rest =~= s.subrange(1, s.len() as int));
        lemma_trim_front_is_suffix(rest, a - 1);
        assert(rest.subrange(a - 1, rest.len() as int) =~= s.subrange(a, s.len() as int));
    }
}

proof fn lemma_trim_back_is_prefix(s: Seq<char>, b: int)
    requires
        0 <= b <= s.len(),
        forall|k: int| b <= k < s.len() ==> is_space_char(#[trigger] s[k]),
        b == 0 || !is_space_char(s[b - 1]),
    ensures
        trim_back(s) == s.subrange(0, b),
    decreases s.len() - b,
{
    if b == s.len() {
        if s.len() > 0 {
            assert(!is_space_char(s.last()));
        }
        assert(trim_back(s) =~= s.subrange(0, b));
    } else {
        assert(is_space_char(s[s.len() - 1]));
        let rest = s.drop_last();
        assert(rest =~= s.subrange(0, s.len() - 1));
        lemma_trim_back_is_prefix(rest, b);
        assert(rest.subrange(0, b) =~= s.subrange(0, b));
    }
}

/// Removes whitespace from both ends of the text.
fn trim_spaces(s: &str) -> (r: String)
    ensures
        r@ == trimmed(s@),
{
    let len = s.unicode_len();
    let mut a: usize = 0;
    while a < len && is_space(s.get_char(a))
        invariant
            len == s@.len(),
            a <= len,
            forall|k: int| 0 <= k < a ==> is_space_char(#[trigger] s@[k]),
        decreases len - a,
    {
        a += 1;
    }
    let mut b: usize = len;
    while b > a && is_space(s.get_char(b - 1))
        invariant
            len == s@.len(),
            a <= b <= len,
            forall|k: int| b <= k < len ==> is_space_char(#[trigger] s@[k]),
        decreases b,
    {
        b -= 1;
    }
    let cut = s.substring_char(a, b);
    proof {
        lemma_trim_front_is_suffix(s@, a as int);
        let suffix = s@.subrange(a as int, s@.len() as int);
        assert forall|k: int| b - a <= k < suffix.len() implies is_space_char(
            #[trigger] suffix[k],
        ) by {
            assert(suffix[k] == s@[a + k]);
        }
        if b > a {
            assert(suffix[b - a - 1] == s@[b - 1]);
        }
        lemma_trim_back_is_prefix(suffix, b as int - a as int);
        assert(suffix.subrange(0, b as int - a as int) =~= s@.subrange(a as int, b as int));
    }
    cut.to_owned()
}

/// Whether the header text begins with the bearer scheme marker.
pub open spec fn has_bearer_scheme(s: Seq<char>) -> bool {
    s.len() >= 7 && s.subrange(0, 7) == "Bearer "@
}

/// The credential text of a bearer header: what follows the scheme
/// marker, with surrounding whitespace removed.
pub open spec fn bearer_token_text(s: Seq<char>) -> Seq<char> {
    trimmed(s.skip(7))
}

fn has_bearer_prefix(s: &str) -> (r: bool)
    ensures
        r == has_bearer_scheme(s@),
{
    proof {
        reveal_strlit("Bearer ");
    }
    let len = s.unicode_len();
    if len < 7 {
        return false;
    }
    let r = s.get_char(0) == 'B' && s.get_char(1) == 'e' && s.get_char(2) == 'a' && s.get_char(3)
        == 'r' && s.get_char(4) == 'e' && s.get_char(5) == 'r' && s.get_char(6) == ' ';
    proof {
        if r {
            assert(s@.subrange(0, 7) =~= "Bearer "@);
        } else {
            if s@.subrange(0, 7) == "Bearer "@ {
                assert(s@[0] == s@.subrange(0, 7)[0]);
                assert(s@[1] == s@.subrange(0, 7)[1]);
                assert(s@[2] == s@.subrange(0, 7)[2]);
                assert(s@[3] == s@.subrange(0, 7)[3]);
                assert(s@[4] == s@.subrange(0, 7)[4]);
                assert(s@[5] == s@.subrange(0, 7)[5]);
                assert(s@[6] == s@.subrange(0, 7)[6]);
                assert(false);
            }
        }
    }
    r
}

/// Extracts the bearer credential text from raw header data: absence,
/// undecodable bytes and a wrong scheme each fail with their own error;
/// otherwise the scheme marker is stripped and the rest trimmed.
pub fn extract_bearer_token(header: &AuthHeader) -> (r: Result<String, AuthError>)
    ensures
        header is Missing ==> r == Err::<String, AuthError>(AuthError::MissingHeader),
        header is Undecodable ==> r == Err::<String, AuthError>(AuthError::InvalidHeader),
        header matches AuthHeader::Present(s) ==> ((!has_bearer_scheme(s@) ==> r == Err::<
            String,
            AuthError,
        >(AuthError::InvalidScheme)) && (has_bearer_scheme(s@) ==> (r matches Ok(t) && t@
            == bearer_token_text(s@)))),
{
    match header {
        AuthHeader::Missing => Err(AuthError::MissingHeader),
        AuthHeader::Undecodable => Err(AuthError::InvalidHeader),
        AuthHeader::Present(s) => {
            if !has_bearer_prefix(s.as_str()) {
                Err(AuthError::InvalidScheme)
            } else {
                let rest = s.as_str().substring_char(7, s.as_str().unicode_len());
                proof {
                    assert(rest@ =~= s@.skip(7));
                }
                Ok(trim_spaces(rest))
            }
        },
    }
}

/// Verifies a credential under the process key; every failure collapses
/// into the one unauthorized outcome. On success the embedded subject
/// comes back unchanged as the claim.
pub fn verify_jwt(key: &HS256Key, token: &str) -> (r: Result<JwtClaim, AuthError>)
    ensures
        r matches Err(e) ==> e == AuthError::Unauthorized,
        r matches Ok(c) ==> token_subject(token@) == Some(c.uuid@),
{
    match verify_token_subject(key, token) {
        Some(uuid) => Ok(JwtClaim { uuid }),
        None => Err(AuthError::Unauthorized),
    }
}

/// The whole guard: extracts the bearer credential from raw header data and
/// verifies it. Extraction failures keep their own error; any verification
/// failure is the undifferentiated unauthorized outcome; on success the
/// yielded claim carries the credential's embedded subject, unchanged.
pub fn authenticate_request(key: &HS256Key, header: &AuthHeader) -> (r: Result<JwtClaim, AuthError>)
    ensures
        header is Missing ==> (r matches Err(e) && e == AuthError::MissingHeader),
        header is Undecodable ==> (r matches Err(e) && e == AuthError::InvalidHeader),
        header matches AuthHeader::Present(s) ==> ((!has_bearer_scheme(s@) ==> (r matches Err(e)
            && e == AuthError::InvalidScheme)) && (has_bearer_scheme(s@) ==> ((r matches Err(e)
            ==> e == AuthError::Unauthorized) && (r matches Ok(c) ==> token_subject(
            bearer_token_text(s@),
        ) == Some(c.uuid@))))),
{
    match extract_bearer_token(header) {
        Ok(token) => verify_jwt(key, token.as_str()),
        Err(e) => Err(e),
    }
}

} // verus!
