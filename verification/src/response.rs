use vstd::prelude::*;
use crate::seq_lemmas::lemma_filter_push;
use vstd::string::StringSliceAdditionalSpecFns;

verus! {

/// Status codes an HTTP response line can carry; anything else cannot be
/// stored in, or replayed from, a snapshot.
pub open spec fn valid_status_code(s: int) -> bool {
    100 <= s < 600
}

/// One response header: a name and the raw bytes of its value. Duplicate
/// names are allowed and order is significant.
#[derive(Debug)]
pub struct HeaderPair {
    pub name: String,
    pub value: Vec<u8>,
}

impl View for HeaderPair {
    type V = (Seq<char>, Seq<u8>);

    open spec fn view(&self) -> (Seq<char>, Seq<u8>) {
        (self.name@, self.value@)
    }
}

/// The views of a header list, in order.
pub open spec fn header_views(hs: Seq<HeaderPair>) -> Seq<(Seq<char>, Seq<u8>)> {
    hs.map_values(|h: HeaderPair| h@)
}

/// The mathematical content of a response: everything two responses must
/// agree on to be byte-identical on the wire.
#[verifier::ext_equal]
pub struct ResponseModel {
    pub status: int,
    pub headers: Seq<(Seq<char>, Seq<u8>)>,
    pub body: Seq<u8>,
}

/// An HTTP response as a plain value, decoupled from any transport framework:
/// a status code, an ordered header list and a byte body.
#[derive(Debug)]
pub struct HttpResponse {
    pub status: u16,
    pub headers: Vec<HeaderPair>,
    pub body: Vec<u8>,
}

impl View for HttpResponse {
    type V = ResponseModel;

    open spec fn view(&self) -> ResponseModel {
        ResponseModel {
            status: self.status as int,
            headers: header_views(self.headers@),
            body: self.body@,
        }
    }
}

impl HttpResponse {
    pub open spec fn wf(&self) -> bool {
        valid_status_code(self@.status)
    }

    /// A response with the given status line and neither headers nor body.
    pub fn new(status: u16) -> (r: HttpResponse)
        requires
            valid_status_code(status as int),
        ensures
            r@.status == status as int,
            r@.headers == Seq::<(Seq<char>, Seq<u8>)>::empty(),
            r@.body == Seq::<u8>::empty(),
            r.wf(),
    {
        let r = HttpResponse { status, headers: Vec::new(), body: Vec::new() };
        proof {
            assert(r@.headers =~= Seq::<(Seq<char>, Seq<u8>)>::empty());
        }
        r
    }

    /// The redirect a browser is sent after a successful form submission:
    /// status 303 with a `Location` header.
    pub fn see_other(location: &str) -> (r: HttpResponse)
        ensures
            r@.status == 303,
            r@.headers == seq![("Location"@, location.spec_bytes())],
            r@.body == Seq::<u8>::empty(),
            r.wf(),
    {
        let mut r = HttpResponse::new(303);
        let pair = HeaderPair { name: String::from_str("Location"), value: location.as_bytes_vec() };
        r.headers.push(pair);
        proof {
            assert(r@.headers =~= seq![("Location"@, location.spec_bytes())]);
        }
        r
    }

    /// Replaces the body, leaving status and headers alone.
    pub fn set_body(&mut self, body: Vec<u8>)
        ensures
            final(self)@ == (ResponseModel { body: body@, ..old(self)@ }),
    {
        self.body = body;
    }

    /// Appends one header pair, after any present ones.
    pub fn append_header(&mut self, name: String, value: Vec<u8>)
        ensures
            final(self)@ == (ResponseModel {
                headers: old(self)@.headers.push((name@, value@)),
                ..old(self)@
            }),
    {
        let ghost before = self@.headers;
        self.headers.push(HeaderPair { name, value });
        proof {
            assert(self@.headers =~= before.push(self.headers@.last()@));
        }
    }
}

/// An exact copy of a byte vector.
pub fn clone_bytes(src: &Vec<u8>) -> (r: Vec<u8>)
    ensures
        r@ == src@,
{
    let mut r: Vec<u8> = Vec::new();
    let n = src.len();
    let mut i: usize = 0;
    while i < n
        invariant
            i <= n,
            n == src@.len(),
            r@ == src@.take(i as int),
        decreases n - i,
    {
        r.push(src[i]);
        i = i + 1;
        proof {
            assert(r@ =~= src@.take(i as int));
        }
    }
    proof {
        assert(src@.take(n as int) =~= src@);
    }
    r
}

/// Appends all of `src` to `dst`.
pub fn push_bytes(dst: &mut Vec<u8>, src: &[u8])
    ensures
        final(dst)@ == old(dst)@ + src@,
{
    let n = src.len();
    let mut i: usize = 0;
    while i < n
        invariant
            i <= n,
            n == src@.len(),
            dst@ == old(dst)@ + src@.take(i as int),
        decreases n - i,
    {
        dst.push(src[i]);
        i = i + 1;
        proof {
            assert(dst@ =~= old(dst)@ + src@.take(i as int));
        }
    }
    proof {
        assert(old(dst)@ + src@.take(n as int) =~= old(dst)@ + src@);
    }
}

/// An exact copy of one header pair.
pub fn clone_header(h: &HeaderPair) -> (r: HeaderPair)
    ensures
        r@ == h@,
{
    HeaderPair { name: h.name.clone(), value: clone_bytes(&h.value) }
}

/// An exact copy of a whole response.
pub fn clone_response(r: &HttpResponse) -> (c: HttpResponse)
    ensures
        c@ == r@,
{
    let mut headers: Vec<HeaderPair> = Vec::new();
    let n = r.headers.len();
    let mut i: usize = 0;
    while i < n
        invariant
            i <= n,
            n == r.headers@.len(),
            headers@.len() == i,
            forall|j: int| 0 <= j < i ==> headers@[j]@ == #[trigger] r.headers@[j]@,
        decreases n - i,
    {
        let h = &r.headers[i];
        headers.push(clone_header(h));
        i = i + 1;
    }
    let c = HttpResponse { status: r.status, headers, body: clone_bytes(&r.body) };
    proof {
        assert(c@.headers =~= r@.headers);
        assert(c@ =~= r@);
    }
    c
}

/// `p` is a prefix of `s`.
pub open spec fn starts_with_bytes(s: Seq<u8>, p: Seq<u8>) -> bool {
    p.len() <= s.len() && forall|i: int| 0 <= i < p.len() ==> s[i] == #[trigger] p[i]
}

/// The opening bytes every `Set-Cookie` value for this cookie starts with:
/// the cookie's name followed by `=`.
pub open spec fn cookie_prefix(name_bytes: Seq<u8>) -> Seq<u8> {
    name_bytes.push(61u8)
}

/// The full stored value of a cookie header: `name=value; Path=/`.
pub open spec fn cookie_header_value(name_bytes: Seq<u8>, value: Seq<u8>) -> Seq<u8> {
    cookie_prefix(name_bytes) + value + "; Path=/".spec_bytes()
}

/// Whether a header sets the cookie with the given name.
pub open spec fn names_cookie(h: (Seq<char>, Seq<u8>), name_bytes: Seq<u8>) -> bool {
    h.0 == "Set-Cookie"@ && starts_with_bytes(h.1, cookie_prefix(name_bytes))
}

/// The headers that survive when the two named cookies are replaced.
pub open spec fn keeps_other_cookies(name1_bytes: Seq<u8>, name2_bytes: Seq<u8>) -> spec_fn(
    (Seq<char>, Seq<u8>),
) -> bool {
    |h: (Seq<char>, Seq<u8>)| !names_cookie(h, name1_bytes) && !names_cookie(h, name2_bytes)
}

/// Exact comparison of two strings by their characters.
pub fn str_equal(a: &str, b: &str) -> (r: bool)
    ensures
        r == (a@ == b@),
{
    let sa = a.to_owned();
    let sb = b.to_owned();
    sa == sb
}

/// Whether `p` is a prefix of `s`, byte for byte.
pub fn bytes_start_with(s: &Vec<u8>, p: &Vec<u8>) -> (r: bool)
    ensures
        r == starts_with_bytes(s@, p@),
{
    let np = p.len();
    if np > s.len() {
        return false;
    }
    let mut i: usize = 0;
    while i < np
        invariant
            i <= np,
            np == p@.len(),
            np <= s@.len(),
            forall|j: int| 0 <= j < i ==> s@[j] == #[trigger] p@[j],
        decreases np - i,
    {
        if s[i] != p[i] {
            return false;
        }
        i = i + 1;
    }
    true
}

impl HttpResponse {
    /// Drops every header that sets one of the two named cookies; all other
    /// headers survive in order.
    pub fn remove_cookies(&mut self, name1: &str, name2: &str)
        ensures
            final(self)@ == (ResponseModel {
                headers: old(self)@.headers.filter(
                    keeps_other_cookies(name1.spec_bytes(), name2.spec_bytes()),
                ),
                ..old(self)@
            }),
    {
        let ghost pred = keeps_other_cookies(name1.spec_bytes(), name2.spec_bytes());
        let mut p1: Vec<u8> = Vec::new();
        push_bytes(&mut p1, name1.as_bytes());
        p1.push(61);
        let mut p2: Vec<u8> = Vec::new();
        push_bytes(&mut p2, name2.as_bytes());
        p2.push(61);
        proof {
            assert(p1@ =~= cookie_prefix(name1.spec_bytes()));
            assert(p2@ =~= cookie_prefix(name2.spec_bytes()));
        }
        let mut kept: Vec<HeaderPair> = Vec::new();
        let n = self.headers.len();
        let mut i: usize = 0;
        while i < n
            invariant
                i <= n,
                n == self.headers@.len(),
                p1@ == cookie_prefix(name1.spec_bytes()),
                p2@ == cookie_prefix(name2.spec_bytes()),
                pred == keeps_other_cookies(name1.spec_bytes(), name2.spec_bytes()),
                header_views(kept@) == header_views(self.headers@.take(i as int)).filter(pred),
            decreases n - i,
        {
            let ghost hv = self.headers@[i as int]@;
            let h = &self.headers[i];
            let set_cookie = str_equal(h.name.as_str(), "Set-Cookie");
            let is_first = set_cookie && bytes_start_with(&h.value, &p1);
            let is_second = set_cookie && bytes_start_with(&h.value, &p2);
            let ghost kept_before = header_views(kept@);
            proof {
                assert(pred(hv) == (!is_first && !is_second));
            }
            if !is_first && !is_second {
                kept.push(clone_header(h));
                proof {
                    assert(header_views(kept@) =~= kept_before.push(hv));
                }
            }
            proof {
                assert(header_views(self.headers@.take(i + 1)) =~= header_views(
                    self.headers@.take(i as int),
                ).push(hv));
                lemma_filter_push(header_views(self.headers@.take(i as int)), pred, hv);
            }
            i = i + 1;
        }
        proof {
            assert(self.headers@.take(n as int) =~= self.headers@);
            assert(header_views(self.headers@.take(n as int)) =~= header_views(self.headers@));
        }
        self.headers = kept;
    }

    /// Appends a `Set-Cookie` header carrying `name=value; Path=/`.
    pub fn append_cookie(&mut self, name: &str, value: &[u8])
        ensures
            final(self)@ == (ResponseModel {
                headers: old(self)@.headers.push(
                    ("Set-Cookie"@, cookie_header_value(name.spec_bytes(), value@)),
                ),
                ..old(self)@
            }),
    {
        let mut v: Vec<u8> = Vec::new();
        push_bytes(&mut v, name.as_bytes());
        v.push(61);
        push_bytes(&mut v, value);
        push_bytes(&mut v, "; Path=/".as_bytes());
        proof {
            assert(v@ =~= cookie_header_value(name.spec_bytes(), value@));
        }
        let ghost before = self@.headers;
        self.headers.push(HeaderPair { name: String::from_str("Set-Cookie"), value: v });
        proof {
            assert(self@.headers =~= before.push(
                ("Set-Cookie"@, cookie_header_value(name.spec_bytes(), value@)),
            ));
        }
    }
}

} // verus!
