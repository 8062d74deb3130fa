//! Response framing: a status line, a deterministic header set
//! (`Content-Type`, `Content-Length`, optionally an announced
//! `Content-Encoding: gzip`), a blank line, and the body bytes.
//!
//! The encoding is announce-only: when the request's `Accept-Encoding`
//! value contains `gzip` the header is added, but the body is always
//! shipped uncompressed, byte for byte.
use vstd::prelude::*;

use crate::bytes::{contains_sub, decimal_bytes, decimal_of, find_from, push_all};
use crate::lit::{
    lit_clen_prefix, lit_crlf, lit_ctype_prefix, lit_gzip, lit_gzip_tail, lit_http_prefix,
};

verus! {

/// The view of an optional byte slice.
pub open spec fn opt_slice_view(o: Option<&[u8]>) -> Option<Seq<u8>> {
    match o {
        Some(s) => Some(s@),
        None => None,
    }
}

/// What closes the header block: an announced `Content-Encoding: gzip`
/// line followed by the blank line when the `Accept-Encoding` value
/// contains `gzip`, else the blank line alone.
pub open spec fn spec_encoding_tail(enc: Option<Seq<u8>>) -> Seq<u8> {
    match enc {
        Some(e) => if contains_sub(e, lit_gzip()) {
            lit_gzip_tail()
        } else {
            lit_crlf()
        },
        None => lit_crlf(),
    }
}

/// The status line and header block of a response whose body holds
/// `body_len` bytes, up to and including the blank line.
pub open spec fn spec_head(
    status: Seq<u8>,
    ctype: Seq<u8>,
    enc: Option<Seq<u8>>,
    body_len: int,
) -> Seq<u8> {
    lit_http_prefix() + status + lit_ctype_prefix() + ctype + lit_clen_prefix() + decimal_of(
        body_len,
    ) + lit_crlf() + spec_encoding_tail(enc)
}

/// A whole response on the wire: head, then the body bytes unchanged.
pub open spec fn spec_build(
    status: Seq<u8>,
    ctype: Seq<u8>,
    enc: Option<Seq<u8>>,
    content: Seq<u8>,
) -> Seq<u8> {
    spec_head(status, ctype, enc, content.len() as int) + content
}

/// Whether `s` contains the bytes of `gzip`.
fn contains_gzip(s: &[u8]) -> (r: bool)
    ensures
        r == contains_sub(s@, lit_gzip()),
{
    proof {
        assert(s@.skip(0) =~= s@);
    }
    let pat = crate::lit::gzip_vec();
    find_from(s, pat.as_slice(), 0).is_some()
}

/// Responses are built fresh per request and never cached; the type
/// only carries the builder.
pub struct HttpResponse {}

impl HttpResponse {
    /// Serialize a response from its status text, content type, the
    /// request's `Accept-Encoding` value if any, and the body bytes.
    pub fn build(
        status_code: &[u8],
        content_type: &[u8],
        encoding: Option<&[u8]>,
        content: &[u8],
    ) -> (r: Vec<u8>)
        ensures
            r@ == spec_build(status_code@, content_type@, opt_slice_view(encoding), content@),
    {
        let mut r: Vec<u8> = Vec::new();
        let piece = crate::lit::http_prefix_vec();
        push_all(&mut r, piece.as_slice());
        push_all(&mut r, status_code);
        let piece = crate::lit::ctype_prefix_vec();
        push_all(&mut r, piece.as_slice());
        push_all(&mut r, content_type);
        let piece = crate::lit::clen_prefix_vec();
        push_all(&mut r, piece.as_slice());
        let digits = decimal_bytes(content.len());
        push_all(&mut r, digits.as_slice());
        let piece = crate::lit::crlf_vec();
        push_all(&mut r, piece.as_slice());
        let announce = match encoding {
            Some(e) => contains_gzip(e),
            None => false,
        };
        if announce {
            let piece = crate::lit::gzip_tail_vec();
            push_all(&mut r, piece.as_slice());
        } else {
            let piece = crate::lit::crlf_vec();
            push_all(&mut r, piece.as_slice());
        }
        push_all(&mut r, content);
        proof {
            assert(r@ =~= spec_build(
                status_code@,
                content_type@,
                opt_slice_view(encoding),
                content@,
            ));
        }
        r
    }
}

} // verus!
