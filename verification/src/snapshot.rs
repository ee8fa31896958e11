use vstd::prelude::*;
use crate::response::HeaderPair;
use crate::response::HttpResponse;
use crate::response::ResponseModel;
use crate::response::clone_bytes;
use crate::response::clone_header;
use crate::response::header_views;
use crate::response::valid_status_code;

verus! {

// A response is snapshotted into the three nullable columns of the ledger
// table: a small-integer status code, an ordered array of header pairs and a
// byte body. Decoding must restore the response byte for byte, so nothing is
// merged, deduplicated or reordered.

/// A stored response, shaped like the relational columns it occupies.
#[derive(Debug)]
pub struct Snapshot {
    pub response_status_code: i16,
    pub response_headers: Vec<HeaderPair>,
    pub response_body: Vec<u8>,
}

impl View for Snapshot {
    type V = ResponseModel;

    open spec fn view(&self) -> ResponseModel {
        ResponseModel {
            status: self.response_status_code as int,
            headers: header_views(self.response_headers@),
            body: self.response_body@,
        }
    }
}

impl Snapshot {
    /// A stored status outside the valid range can only come from a
    /// data-integrity bug; decoding refuses it.
    pub open spec fn wf(&self) -> bool {
        valid_status_code(self@.status)
    }
}

/// Reading back a snapshot can fail in exactly one way.
#[derive(Clone, Copy, Debug, PartialEq, Eq)]
pub enum CodecError {
    InvalidStatusCode,
}

/// Serializes a response into the ledger's columns. Takes the response by
/// value: its body is a buffer that was already read fully into memory, and
/// the caller is expected to rebuild the outgoing response from the snapshot
/// rather than read a stream twice.
pub fn encode_response(http_response: HttpResponse) -> (s: Snapshot)
    requires
        http_response.wf(),
    ensures
        s@ == http_response@,
        s.wf(),
{
    Snapshot {
        response_status_code: http_response.status as i16,
        response_headers: http_response.headers,
        response_body: http_response.body,
    }
}

/// Rebuilds the response a snapshot stores: the exact header sequence and
/// body bytes that were encoded, in order, duplicates preserved. Fails only
/// when the stored status code is not a valid HTTP status.
pub fn decode_snapshot(s: &Snapshot) -> (r: Result<HttpResponse, CodecError>)
    ensures
        r is Ok <==> valid_status_code(s@.status),
        r matches Ok(resp) ==> resp@ == s@ && resp.wf(),
        r matches Err(e) ==> e == CodecError::InvalidStatusCode,
{
    let code = s.response_status_code;
    if 100 <= code && code < 600 {
        let mut headers: Vec<HeaderPair> = Vec::new();
        let n = s.response_headers.len();
        let mut i: usize = 0;
        while i < n
            invariant
                i <= n,
                n == s.response_headers@.len(),
                headers@.len() == i,
                forall|j: int|
                    0 <= j < i ==> headers@[j]@ == #[trigger] s.response_headers@[j]@,
            decreases n - i,
        {
            headers.push(clone_header(&s.response_headers[i]));
            i = i + 1;
        }
        let resp = HttpResponse {
            status: code as u16,
            headers,
            body: clone_bytes(&s.response_body),
        };
        proof {
            assert(resp@.headers =~= s@.headers);
            assert(resp@ =~= s@);
        }
        Ok(resp)
    } else {
        Err(CodecError::InvalidStatusCode)
    }
}

/// The round-trip law: a snapshot taken from a well-formed response always
/// decodes, and what it decodes to agrees with the original response on
/// status, header sequence (order and duplicates included) and body bytes.
/// The hypotheses are exactly what `encode_response` ensures about `s` and
/// what a successful `decode_snapshot` ensures about `d`.
pub proof fn lemma_snapshot_round_trip(r: HttpResponse, s: Snapshot, d: HttpResponse)
    requires
        r.wf(),
        s@ == r@,
        d@ == s@,
    ensures
        valid_status_code(s@.status),
        d@ == r@,
        d@.status == r@.status,
        d@.headers == r@.headers,
        d@.body == r@.body,
{
}

} // verus!
