use vstd::prelude::*;
use vstd::string::StringSliceAdditionalSpecFns;
use vstd::utf8::encode_utf8;
use vstd::utf8::is_ascii_chars;
use vstd::utf8::is_ascii_chars_encode_utf8;
use crate::response::HttpResponse;
use crate::response::ResponseModel;
use crate::response::cookie_header_value;
use crate::response::keeps_other_cookies;
use crate::response::names_cookie;
use crate::response::push_bytes;
use crate::response::starts_with_bytes;
use crate::seq_lemmas::lemma_filter_idempotent;
use crate::seq_lemmas::lemma_filter_push;

verus! {

// A flash message rides back to the browser in a `_flash` cookie. Anyone can
// set a cookie, so a second `tag` cookie carries an HMAC over the message,
// keyed with a secret only the server knows; on the next request the message
// is shown only when the tag checks out.

/// The HMAC-SHA-256 digest of `msg` under `key`: a fixed function of its two
/// arguments, left without a definition here because the reference is RFC 2104
/// itself, computed by the outside crate.
pub uninterp spec fn hmac_sha256_of(key: Seq<u8>, msg: Seq<u8>) -> Seq<u8>;

/// Relies on `hmac::Hmac<sha2::Sha256>` (`new_from_slice`, `update`,
/// `finalize`): the digest is a function of key and message alone and is 32
/// bytes long, SHA-256's output size. `new_from_slice` accepts keys of any
/// length for an HMAC, so it cannot fail here.
#[verifier::external_body]
fn hmac_sha256(key: &[u8], msg: &[u8]) -> (r: Vec<u8>)
    ensures
        r@ == hmac_sha256_of(key@, msg@),
        r@.len() == 32,
{
    let mut mac = <hmac::Hmac<sha2::Sha256> as hmac::Mac>::new_from_slice(key).unwrap();
    hmac::Mac::update(&mut mac, msg);
    hmac::Mac::finalize(mac).into_bytes().to_vec()
}

/// The lower-case hexadecimal digit for a value below sixteen.
pub open spec fn hex_digit_char(n: int) -> char {
    if n == 0 {
        '0'
    } else if n == 1 {
        '1'
    } else if n == 2 {
        '2'
    } else if n == 3 {
        '3'
    } else if n == 4 {
        '4'
    } else if n == 5 {
        '5'
    } else if n == 6 {
        '6'
    } else if n == 7 {
        '7'
    } else if n == 8 {
        '8'
    } else if n == 9 {
        '9'
    } else if n == 10 {
        'a'
    } else if n == 11 {
        'b'
    } else if n == 12 {
        'c'
    } else if n == 13 {
        'd'
    } else if n == 14 {
        'e'
    } else {
        'f'
    }
}

/// Lower-case hexadecimal of a byte sequence: two digits per byte, high
/// nibble first.
pub open spec fn hex_encoding(b: Seq<u8>) -> Seq<char> {
    Seq::new(
        b.len() * 2,
        |i: int|
            if i % 2 == 0 {
                hex_digit_char(b[i / 2] as int / 16)
            } else {
                hex_digit_char(b[i / 2] as int % 16)
            },
    )
}

pub open spec fn is_hex_digit_char(c: char) -> bool {
    ('0' <= c && c <= '9') || ('a' <= c && c <= 'f') || ('A' <= c && c <= 'F')
}

/// The value of one hexadecimal digit, either case.
pub open spec fn hex_digit_value(c: char) -> int {
    if '0' <= c && c <= '9' {
        c as int - 48
    } else if 'a' <= c && c <= 'f' {
        c as int - 87
    } else {
        c as int - 55
    }
}

/// What hexadecimal decoding accepts: an even number of digits.
pub open spec fn is_hex_string(s: Seq<char>) -> bool {
    s.len() % 2 == 0 && forall|i: int| 0 <= i < s.len() ==> is_hex_digit_char(#[trigger] s[i])
}

/// The bytes a hexadecimal string denotes, one byte per digit pair.
pub open spec fn hex_decoding(s: Seq<char>) -> Seq<u8> {
    Seq::new(
        s.len() / 2,
        |i: int| (hex_digit_value(s[2 * i]) * 16 + hex_digit_value(s[2 * i + 1])) as u8,
    )
}

/// Relies on `hex::encode`: two lower-case digits per byte, high nibble first.
#[verifier::external_body]
fn hex_encode(bytes: &[u8]) -> (r: String)
    ensures
        r@ == hex_encoding(bytes@),
{
    hex::encode(bytes)
}

/// Relies on `hex::decode`: it succeeds exactly on an even number of
/// hexadecimal digits (either case) and pairs them high nibble first. Its
/// error value is dropped; the callers only branch on success.
#[verifier::external_body]
fn hex_decode(s: &str) -> (r: Option<Vec<u8>>)
    ensures
        r is Some <==> is_hex_string(s@),
        r matches Some(v) ==> v@ == hex_decoding(s@),
{
    hex::decode(s).ok()
}

/// Hexadecimal digits are ASCII.
pub proof fn lemma_hex_encoding_is_ascii(b: Seq<u8>)
    ensures
        is_ascii_chars(hex_encoding(b)),
{
    assert forall|i: int|
        0 <= i < hex_encoding(b).len() implies '\0' <= #[trigger] hex_encoding(b)[i]
        <= '\u{7f}' by {
        if i % 2 == 0 {
            assert(hex_encoding(b)[i] == hex_digit_char(b[i / 2] as int / 16));
        } else {
            assert(hex_encoding(b)[i] == hex_digit_char(b[i / 2] as int % 16));
        }
    }
}

/// The byte each character of an ASCII sequence stands for.
pub open spec fn ascii_bytes(s: Seq<char>) -> Seq<u8> {
    Seq::new(s.len(), |i: int| s[i] as u8)
}

/// What the `tag` cookie signs: the literal `_flash=` followed by the message.
pub open spec fn flash_msg_bytes(msg: Seq<char>) -> Seq<u8> {
    "_flash=".spec_bytes() + encode_utf8(msg)
}

/// The tag proving the server set a given flash message.
pub open spec fn flash_tag_chars(key: Seq<u8>, msg: Seq<char>) -> Seq<char> {
    hex_encoding(hmac_sha256_of(key, flash_msg_bytes(msg)))
}

/// The hexadecimal tag over `_flash=` followed by the message.
pub fn gen_hmac_tag(hmac_key: &[u8], msg: &[u8]) -> (r: String)
    ensures
        r@ == hex_encoding(hmac_sha256_of(hmac_key@, msg@)),
{
    let digest = hmac_sha256(hmac_key, msg);
    hex_encode(digest.as_slice())
}

/// Whether `input_tag` is the digest of `msg` under `hmac_key`.
pub fn verify_hmac_tag(hmac_key: &[u8], msg: &[u8], input_tag: &[u8]) -> (r: bool)
    ensures
        r == (input_tag@ == hmac_sha256_of(hmac_key@, msg@)),
{
    let digest = hmac_sha256(hmac_key, msg);
    bytes_equal(input_tag, digest.as_slice())
}

/// Exact comparison of two byte strings.
pub fn bytes_equal(a: &[u8], b: &[u8]) -> (r: bool)
    ensures
        r == (a@ == b@),
{
    let n = a.len();
    if n != b.len() {
        return false;
    }
    let mut i: usize = 0;
    while i < n
        invariant
            i <= n,
            n == a@.len(),
            n == b@.len(),
            forall|j: int| 0 <= j < i ==> a@[j] == #[trigger] b@[j],
        decreases n - i,
    {
        if a[i] != b[i] {
            return false;
        }
        i = i + 1;
    }
    proof {
        assert(a@ =~= b@);
    }
    true
}

/// The headers of a response after the flash cookies are (re)written: any
/// previous `_flash` and `tag` cookies are dropped, then the message cookie
/// and its tag cookie are appended.
pub open spec fn flash_cookie_headers(
    headers: Seq<(Seq<char>, Seq<u8>)>,
    key: Seq<u8>,
    msg: Seq<char>,
) -> Seq<(Seq<char>, Seq<u8>)> {
    headers.filter(keeps_other_cookies("_flash".spec_bytes(), "tag".spec_bytes())).push(
        ("Set-Cookie"@, cookie_header_value("_flash".spec_bytes(), encode_utf8(msg))),
    ).push(("Set-Cookie"@, cookie_header_value("tag".spec_bytes(), ascii_bytes(flash_tag_chars(key, msg)))))
}

/// A response after the flash message is attached: same status and body, with
/// the two cookies rewritten.
pub open spec fn attach_flash_model(m: ResponseModel, key: Seq<u8>, msg: Seq<char>) -> ResponseModel {
    ResponseModel { headers: flash_cookie_headers(m.headers, key, msg), ..m }
}

/// Sets the `_flash` cookie to `error_msg` and the `tag` cookie to the HMAC
/// tag over it, replacing any previous pair.
pub fn attach_flashed_message(response: &mut HttpResponse, hmac_key: &[u8], error_msg: &str)
    ensures
        final(response)@ == attach_flash_model(old(response)@, hmac_key@, error_msg@),
{
    response.remove_cookies("_flash", "tag");
    response.append_cookie("_flash", error_msg.as_bytes());
    let mut msg: Vec<u8> = Vec::new();
    push_bytes(&mut msg, "_flash=".as_bytes());
    push_bytes(&mut msg, error_msg.as_bytes());
    proof {
        assert(msg@ =~= flash_msg_bytes(error_msg@));
    }
    let tag = gen_hmac_tag(hmac_key, msg.as_slice());
    proof {
        lemma_hex_encoding_is_ascii(hmac_sha256_of(hmac_key@, msg@));
        is_ascii_chars_encode_utf8(tag@);
        assert(encode_utf8(tag@) =~= ascii_bytes(flash_tag_chars(hmac_key@, error_msg@)));
    }
    response.append_cookie("tag", tag.as_str().as_bytes());
    proof {
        assert(final(response)@ =~= attach_flash_model(old(response)@, hmac_key@, error_msg@));
    }
}

/// What the cookie values of a request must satisfy for the flash message to
/// be trusted: both cookies present, the tag a hexadecimal string decoding to
/// the digest of `_flash=` plus the message.
pub open spec fn cookie_verifies(
    flash: Option<Seq<char>>,
    tag: Option<Seq<char>>,
    key: Seq<u8>,
) -> bool {
    match (flash, tag) {
        (Some(f), Some(t)) => is_hex_string(t) && hex_decoding(t) == hmac_sha256_of(
            key,
            flash_msg_bytes(f),
        ),
        _ => false,
    }
}

/// The character sequences of optional cookie values.
pub open spec fn opt_chars(o: Option<&String>) -> Option<Seq<char>> {
    match o {
        Some(s) => Some(s@),
        None => None,
    }
}

/// Whether the request's `tag` cookie proves that the server set its `_flash`
/// cookie.
pub fn verify_cookie(flash_cookie: Option<&String>, tag_cookie: Option<&String>, hmac_key: &[u8]) -> (r:
    bool)
    ensures
        r == cookie_verifies(opt_chars(flash_cookie), opt_chars(tag_cookie), hmac_key@),
{
    let f = match flash_cookie {
        Some(f) => f,
        None => {
            return false;
        },
    };
    let t = match tag_cookie {
        Some(t) => t,
        None => {
            return false;
        },
    };
    let tag_bytes = match hex_decode(t.as_str()) {
        Some(v) => v,
        None => {
            return false;
        },
    };
    let mut msg: Vec<u8> = Vec::new();
    push_bytes(&mut msg, "_flash=".as_bytes());
    push_bytes(&mut msg, f.as_str().as_bytes());
    proof {
        assert(msg@ =~= flash_msg_bytes(f@));
    }
    verify_hmac_tag(hmac_key, msg.as_slice(), tag_bytes.as_slice())
}

/// The flash message as a paragraph of the next page, or nothing when the tag
/// does not check out.
pub fn get_flashed_message(
    flash_cookie: Option<&String>,
    tag_cookie: Option<&String>,
    hmac_key: &[u8],
) -> (r: String)
    ensures
        cookie_verifies(opt_chars(flash_cookie), opt_chars(tag_cookie), hmac_key@) ==> r@
            == "<p><i>"@ + flash_cookie->Some_0@ + "</i></p>"@,
        !cookie_verifies(opt_chars(flash_cookie), opt_chars(tag_cookie), hmac_key@) ==> r@
            == Seq::<char>::empty(),
{
    if verify_cookie(flash_cookie, tag_cookie, hmac_key) {
        let f = match flash_cookie {
            Some(f) => f,
            None => {
                return String::new();
            },
        };
        String::from_str("<p><i>").concat(f.as_str()).concat("</i></p>")
    } else {
        String::new()
    }
}

/// Attaching the same flash message twice is the same as attaching it once:
/// the replay of a stored response carries the exact cookies the first answer
/// carried.
pub proof fn lemma_attach_flash_idempotent(m: ResponseModel, key: Seq<u8>, msg: Seq<char>)
    ensures
        attach_flash_model(attach_flash_model(m, key, msg), key, msg) == attach_flash_model(
            m,
            key,
            msg,
        ),
{
    let pred = keeps_other_cookies("_flash".spec_bytes(), "tag".spec_bytes());
    let cf = ("Set-Cookie"@, cookie_header_value("_flash".spec_bytes(), encode_utf8(msg)));
    let ct = (
        "Set-Cookie"@,
        cookie_header_value("tag".spec_bytes(), ascii_bytes(flash_tag_chars(key, msg))),
    );
    assert(starts_with_bytes(cf.1, "_flash".spec_bytes().push(61u8)));
    assert(starts_with_bytes(ct.1, "tag".spec_bytes().push(61u8)));
    assert(names_cookie(cf, "_flash".spec_bytes()));
    assert(names_cookie(ct, "tag".spec_bytes()));
    assert(!pred(cf));
    assert(!pred(ct));
    let f1 = m.headers.filter(pred);
    lemma_filter_push(f1.push(cf), pred, ct);
    lemma_filter_push(f1, pred, cf);
    lemma_filter_idempotent(m.headers, pred);
    assert(attach_flash_model(attach_flash_model(m, key, msg), key, msg) =~= attach_flash_model(
        m,
        key,
        msg,
    ));
}

} // verus!
