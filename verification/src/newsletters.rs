use vstd::prelude::*;
use vstd::string::StrSliceExecFns;
use crate::response::str_equal;

verus! {

// The older, unprotected publish endpoint authenticated callers itself, with
// HTTP Basic authentication, and sent the issue to every confirmed
// subscriber inline. The credential parsing is ordinary string logic and is
// verified here; password verification and the sending happen outside.

/// The submitted issue of that endpoint: a title and the content in both
/// renderings.
pub struct BodyData {
    pub title: String,
    pub content: Content,
}

pub struct Content {
    pub html: String,
    pub text: String,
}

/// How that endpoint fails: the caller could not be authenticated, or
/// something else went wrong.
#[derive(Clone, Copy, Debug, PartialEq, Eq)]
pub enum PublishError {
    AuthError,
    UnexpectedError,
}

/// A username and password, as handed over in a Basic authorization header.
#[derive(Debug)]
pub struct Credentials {
    pub username: String,
    pub password: String,
}

/// Why an authorization header was rejected.
#[derive(Clone, Copy, Debug, PartialEq, Eq)]
pub enum BasicAuthError {
    SchemeNotBasic,
    InvalidBase64,
    InvalidUtf8,
    MissingPassword,
}

/// What standard base64 (with padding) decodes a string to, when it decodes
/// at all: a fixed function of the characters alone, computed by the outside
/// crate and left without a definition here.
pub uninterp spec fn base64_standard_decoding(s: Seq<char>) -> Option<Seq<u8>>;

/// Relies on `base64::decode_config` with the `STANDARD` alphabet: whether
/// the input decodes, and to which bytes, depends on the input alone. The
/// error value is dropped; callers only branch on success.
#[verifier::external_body]
fn base64_decode_standard(s: &str) -> (r: Option<Vec<u8>>)
    ensures
        r is Some <==> base64_standard_decoding(s@) is Some,
        r matches Some(v) ==> base64_standard_decoding(s@) == Some(v@),
{
    base64::decode_config(s, base64::STANDARD).ok()
}

/// What UTF-8 decoding makes of a byte string, when the bytes are valid
/// UTF-8: a fixed function of the bytes alone.
pub uninterp spec fn utf8_decoding(b: Seq<u8>) -> Option<Seq<char>>;

/// Relies on `String::from_utf8` of std: whether the bytes are valid UTF-8,
/// and which characters they spell, depends on the bytes alone. The error
/// value is dropped; callers only branch on success.
#[verifier::external_body]
fn utf8_decode(b: Vec<u8>) -> (r: Option<String>)
    ensures
        r is Some <==> utf8_decoding(b@) is Some,
        r matches Some(s) ==> utf8_decoding(b@) == Some(s@),
{
    String::from_utf8(b).ok()
}

/// The header names the Basic scheme when it opens with `Basic `.
pub open spec fn strips_basic(header: Seq<char>) -> bool {
    header.len() >= 6 && header.take(6) == "Basic "@
}

/// The base64 payload after the scheme word.
pub open spec fn basic_payload(header: Seq<char>) -> Seq<char> {
    header.skip(6)
}

/// The scheme and payload were in order but the decoded bytes were not
/// UTF-8.
pub open spec fn basic_utf8_failed(header: Seq<char>) -> bool {
    strips_basic(header) && match base64_standard_decoding(basic_payload(header)) {
        Some(b) => utf8_decoding(b) is None,
        None => false,
    }
}

/// The credential string an authorization header carries, if the scheme is
/// Basic and the payload is base64 of valid UTF-8.
pub open spec fn basic_auth_decoded(header: Seq<char>) -> Option<Seq<char>> {
    if !strips_basic(header) {
        None
    } else {
        match base64_standard_decoding(basic_payload(header)) {
            Some(b) => utf8_decoding(b),
            None => None,
        }
    }
}

/// The position of the first `:`, or -1 when there is none: everything
/// before it is the username, everything after it the password.
pub open spec fn find_colon(s: Seq<char>) -> int
    decreases s.len(),
{
    if s.len() == 0 {
        -1
    } else if s[0] == ':' {
        0
    } else {
        let rest = find_colon(s.drop_first());
        if rest == -1 {
            -1
        } else {
            rest + 1
        }
    }
}

proof fn lemma_find_colon_at(s: Seq<char>, i: int)
    requires
        0 <= i < s.len(),
        s[i] == ':',
        forall|j: int| 0 <= j < i ==> s[j] != ':',
    ensures
        find_colon(s) == i,
    decreases i,
{
    if i > 0 {
        lemma_find_colon_at(s.drop_first(), i - 1);
    }
}

proof fn lemma_find_colon_none(s: Seq<char>)
    requires
        forall|j: int| 0 <= j < s.len() ==> s[j] != ':',
    ensures
        find_colon(s) == -1,
    decreases s.len(),
{
    if s.len() > 0 {
        lemma_find_colon_none(s.drop_first());
    }
}

/// Splits a decoded credential string at its first `:`. Fails only when no
/// `:` is present, in which case no password was provided.
pub fn parse_basic_credentials(decoded: &str) -> (r: Result<Credentials, BasicAuthError>)
    ensures
        r is Ok <==> find_colon(decoded@) >= 0,
        r matches Ok(c) ==> c.username@ == decoded@.take(find_colon(decoded@)) && c.password@
            == decoded@.skip(find_colon(decoded@) + 1),
        r matches Err(e) ==> e == BasicAuthError::MissingPassword,
{
    let n = decoded.unicode_len();
    let mut i: usize = 0;
    while i < n
        invariant
            i <= n,
            n == decoded@.len(),
            forall|j: int| 0 <= j < i ==> decoded@[j] != ':',
        decreases n - i,
    {
        if decoded.get_char(i) == ':' {
            proof {
                lemma_find_colon_at(decoded@, i as int);
            }
            let username = decoded.substring_char(0, i).to_owned();
            let password = decoded.substring_char(i + 1, n).to_owned();
            proof {
                assert(username@ =~= decoded@.take(i as int));
                assert(password@ =~= decoded@.skip(i + 1));
            }
            return Ok(Credentials { username, password });
        }
        i = i + 1;
    }
    proof {
        lemma_find_colon_none(decoded@);
    }
    Err(BasicAuthError::MissingPassword)
}

/// Parses an `Authorization` header of the Basic scheme into credentials:
/// strips the scheme word, base64-decodes the payload, reads it as UTF-8 and
/// splits it at the first `:`. Each step's failure is reported distinctly.
pub fn basic_authentication(header_value: &str) -> (r: Result<Credentials, BasicAuthError>)
    ensures
        r is Ok <==> (basic_auth_decoded(header_value@) matches Some(d) && find_colon(d) >= 0),
        r matches Ok(c) ==> (basic_auth_decoded(header_value@) matches Some(d) && c.username@
            == d.take(find_colon(d)) && c.password@ == d.skip(find_colon(d) + 1)),
        r matches Err(e) ==> (e == BasicAuthError::SchemeNotBasic <==> !strips_basic(
            header_value@,
        )),
        r matches Err(e) ==> (e == BasicAuthError::InvalidBase64 <==> strips_basic(header_value@)
            && base64_standard_decoding(basic_payload(header_value@)) is None),
        r matches Err(e) ==> (e == BasicAuthError::InvalidUtf8 <==> basic_utf8_failed(
            header_value@,
        )),
{
    let n = header_value.unicode_len();
    if n < 6 {
        return Err(BasicAuthError::SchemeNotBasic);
    }
    let scheme = header_value.substring_char(0, 6);
    if !str_equal(scheme, "Basic ") {
        return Err(BasicAuthError::SchemeNotBasic);
    }
    let payload = header_value.substring_char(6, n);
    proof {
        assert(payload@ =~= basic_payload(header_value@));
    }
    let decoded_bytes = match base64_decode_standard(payload) {
        Some(b) => b,
        None => {
            return Err(BasicAuthError::InvalidBase64);
        },
    };
    let decoded = match utf8_decode(decoded_bytes) {
        Some(s) => s,
        None => {
            return Err(BasicAuthError::InvalidUtf8);
        },
    };
    parse_basic_credentials(decoded.as_str())
}

} // verus!
