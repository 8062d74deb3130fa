//! The fixed byte strings of the protocol: methods, route
//! patterns, header names, and the pieces of the wire format,
//! each as a spec-level sequence and as a runtime vector.
use vstd::prelude::*;

verus! {

/// The bytes of `"\r\n"`.
pub open spec fn lit_crlf() -> Seq<u8> {
    seq![13u8, 10u8]
}

/// A fresh vector holding `"\r\n"`.
pub fn crlf_vec() -> (r: Vec<u8>)
    ensures
        r@ == lit_crlf(),
{
    let a: [u8; 2] = [13u8, 10u8];
    let r = vstd::slice::slice_to_vec(a.as_slice());
    proof {
        assert(r@ =~= lit_crlf());
    }
    r
}

/// The bytes of `"\r\n\r\n"`.
pub open spec fn lit_crlf_crlf() -> Seq<u8> {
    seq![13u8, 10u8, 13u8, 10u8]
}

/// A fresh vector holding `"\r\n\r\n"`.
pub fn crlf_crlf_vec() -> (r: Vec<u8>)
    ensures
        r@ == lit_crlf_crlf(),
{
    let a: [u8; 4] = [13u8, 10u8, 13u8, 10u8];
    let r = vstd::slice::slice_to_vec(a.as_slice());
    proof {
        assert(r@ =~= lit_crlf_crlf());
    }
    r
}

/// The bytes of `":"`.
pub open spec fn lit_colon() -> Seq<u8> {
    seq![':' as u8]
}

/// A fresh vector holding `":"`.
pub fn colon_vec() -> (r: Vec<u8>)
    ensures
        r@ == lit_colon(),
{
    let a: [u8; 1] = [':' as u8];
    let r = vstd::slice::slice_to_vec(a.as_slice());
    proof {
        assert(r@ =~= lit_colon());
    }
    r
}

/// The bytes of `"GET"`.
pub open spec fn lit_get() -> Seq<u8> {
    seq!['G' as u8, 'E' as u8, 'T' as u8]
}

/// A fresh vector holding `"GET"`.
pub fn get_vec() -> (r: Vec<u8>)
    ensures
        r@ == lit_get(),
{
    let a: [u8; 3] = ['G' as u8, 'E' as u8, 'T' as u8];
    let r = vstd::slice::slice_to_vec(a.as_slice());
    proof {
        assert(r@ =~= lit_get());
    }
    r
}

/// The bytes of `"POST"`.
pub open spec fn lit_post() -> Seq<u8> {
    seq!['P' as u8, 'O' as u8, 'S' as u8, 'T' as u8]
}

/// A fresh vector holding `"POST"`.
pub fn post_vec() -> (r: Vec<u8>)
    ensures
        r@ == lit_post(),
{
    let a: [u8; 4] = ['P' as u8, 'O' as u8, 'S' as u8, 'T' as u8];
    let r = vstd::slice::slice_to_vec(a.as_slice());
    proof {
        assert(r@ =~= lit_post());
    }
    r
}

/// The bytes of `"/"`.
pub open spec fn lit_root_path() -> Seq<u8> {
    seq!['/' as u8]
}

/// A fresh vector holding `"/"`.
pub fn root_path_vec() -> (r: Vec<u8>)
    ensures
        r@ == lit_root_path(),
{
    let a: [u8; 1] = ['/' as u8];
    let r = vstd::slice::slice_to_vec(a.as_slice());
    proof {
        assert(r@ =~= lit_root_path());
    }
    r
}

/// The bytes of `"/echo/"`.
pub open spec fn lit_echo_prefix() -> Seq<u8> {
    seq!['/' as u8, 'e' as u8, 'c' as u8, 'h' as u8, 'o' as u8, '/' as u8]
}

/// A fresh vector holding `"/echo/"`.
pub fn echo_prefix_vec() -> (r: Vec<u8>)
    ensures
        r@ == lit_echo_prefix(),
{
    let a: [u8; 6] = ['/' as u8, 'e' as u8, 'c' as u8, 'h' as u8, 'o' as u8, '/' as u8];
    let r = vstd::slice::slice_to_vec(a.as_slice());
    proof {
        assert(r@ =~= lit_echo_prefix());
    }
    r
}

/// The bytes of `"/user-agent"`.
pub open spec fn lit_user_agent_path() -> Seq<u8> {
    seq!['/' as u8, 'u' as u8, 's' as u8, 'e' as u8, 'r' as u8, '-' as u8, 'a' as u8, 'g' as u8, 'e' as u8, 'n' as u8, 't' as u8]
}

/// A fresh vector holding `"/user-agent"`.
pub fn user_agent_path_vec() -> (r: Vec<u8>)
    ensures
        r@ == lit_user_agent_path(),
{
    let a: [u8; 11] = ['/' as u8, 'u' as u8, 's' as u8, 'e' as u8, 'r' as u8, '-' as u8, 'a' as u8, 'g' as u8, 'e' as u8, 'n' as u8, 't' as u8];
    let r = vstd::slice::slice_to_vec(a.as_slice());
    proof {
        assert(r@ =~= lit_user_agent_path());
    }
    r
}

/// The bytes of `"/files/"`.
pub open spec fn lit_files_prefix() -> Seq<u8> {
    seq!['/' as u8, 'f' as u8, 'i' as u8, 'l' as u8, 'e' as u8, 's' as u8, '/' as u8]
}

/// A fresh vector holding `"/files/"`.
pub fn files_prefix_vec() -> (r: Vec<u8>)
    ensures
        r@ == lit_files_prefix(),
{
    let a: [u8; 7] = ['/' as u8, 'f' as u8, 'i' as u8, 'l' as u8, 'e' as u8, 's' as u8, '/' as u8];
    let r = vstd::slice::slice_to_vec(a.as_slice());
    proof {
        assert(r@ =~= lit_files_prefix());
    }
    r
}

/// The bytes of `"gzip"`.
pub open spec fn lit_gzip() -> Seq<u8> {
    seq!['g' as u8, 'z' as u8, 'i' as u8, 'p' as u8]
}

/// A fresh vector holding `"gzip"`.
pub fn gzip_vec() -> (r: Vec<u8>)
    ensures
        r@ == lit_gzip(),
{
    let a: [u8; 4] = ['g' as u8, 'z' as u8, 'i' as u8, 'p' as u8];
    let r = vstd::slice::slice_to_vec(a.as_slice());
    proof {
        assert(r@ =~= lit_gzip());
    }
    r
}

/// The bytes of `"User-Agent"`.
pub open spec fn lit_hdr_user_agent() -> Seq<u8> {
    seq!['U' as u8, 's' as u8, 'e' as u8, 'r' as u8, '-' as u8, 'A' as u8, 'g' as u8, 'e' as u8, 'n' as u8, 't' as u8]
}

/// A fresh vector holding `"User-Agent"`.
pub fn hdr_user_agent_vec() -> (r: Vec<u8>)
    ensures
        r@ == lit_hdr_user_agent(),
{
    let a: [u8; 10] = ['U' as u8, 's' as u8, 'e' as u8, 'r' as u8, '-' as u8, 'A' as u8, 'g' as u8, 'e' as u8, 'n' as u8, 't' as u8];
    let r = vstd::slice::slice_to_vec(a.as_slice());
    proof {
        assert(r@ =~= lit_hdr_user_agent());
    }
    r
}

/// The bytes of `"Accept-Encoding"`.
pub open spec fn lit_hdr_accept_encoding() -> Seq<u8> {
    seq!['A' as u8, 'c' as u8, 'c' as u8, 'e' as u8, 'p' as u8, 't' as u8, '-' as u8, 'E' as u8, 'n' as u8, 'c' as u8, 'o' as u8, 'd' as u8, 'i' as u8, 'n' as u8, 'g' as u8]
}

/// A fresh vector holding `"Accept-Encoding"`.
pub fn hdr_accept_encoding_vec() -> (r: Vec<u8>)
    ensures
        r@ == lit_hdr_accept_encoding(),
{
    let a: [u8; 15] = ['A' as u8, 'c' as u8, 'c' as u8, 'e' as u8, 'p' as u8, 't' as u8, '-' as u8, 'E' as u8, 'n' as u8, 'c' as u8, 'o' as u8, 'd' as u8, 'i' as u8, 'n' as u8, 'g' as u8];
    let r = vstd::slice::slice_to_vec(a.as_slice());
    proof {
        assert(r@ =~= lit_hdr_accept_encoding());
    }
    r
}

/// The bytes of `"HTTP/1.1 "`.
pub open spec fn lit_http_prefix() -> Seq<u8> {
    seq!['H' as u8, 'T' as u8, 'T' as u8, 'P' as u8, '/' as u8, '1' as u8, '.' as u8, '1' as u8, ' ' as u8]
}

/// A fresh vector holding `"HTTP/1.1 "`.
pub fn http_prefix_vec() -> (r: Vec<u8>)
    ensures
        r@ == lit_http_prefix(),
{
    let a: [u8; 9] = ['H' as u8, 'T' as u8, 'T' as u8, 'P' as u8, '/' as u8, '1' as u8, '.' as u8, '1' as u8, ' ' as u8];
    let r = vstd::slice::slice_to_vec(a.as_slice());
    proof {
        assert(r@ =~= lit_http_prefix());
    }
    r
}

/// The bytes of `"\r\nContent-Type: "`.
pub open spec fn lit_ctype_prefix() -> Seq<u8> {
    seq![13u8, 10u8, 'C' as u8, 'o' as u8, 'n' as u8, 't' as u8, 'e' as u8, 'n' as u8, 't' as u8, '-' as u8, 'T' as u8, 'y' as u8, 'p' as u8, 'e' as u8, ':' as u8, ' ' as u8]
}

/// A fresh vector holding `"\r\nContent-Type: "`.
pub fn ctype_prefix_vec() -> (r: Vec<u8>)
    ensures
        r@ == lit_ctype_prefix(),
{
    let a: [u8; 16] = [13u8, 10u8, 'C' as u8, 'o' as u8, 'n' as u8, 't' as u8, 'e' as u8, 'n' as u8, 't' as u8, '-' as u8, 'T' as u8, 'y' as u8, 'p' as u8, 'e' as u8, ':' as u8, ' ' as u8];
    let r = vstd::slice::slice_to_vec(a.as_slice());
    proof {
        assert(r@ =~= lit_ctype_prefix());
    }
    r
}

/// The bytes of `"\r\nContent-Length: "`.
pub open spec fn lit_clen_prefix() -> Seq<u8> {
    seq![13u8, 10u8, 'C' as u8, 'o' as u8, 'n' as u8, 't' as u8, 'e' as u8, 'n' as u8, 't' as u8, '-' as u8, 'L' as u8, 'e' as u8, 'n' as u8, 'g' as u8, 't' as u8, 'h' as u8, ':' as u8, ' ' as u8]
}

/// A fresh vector holding `"\r\nContent-Length: "`.
pub fn clen_prefix_vec() -> (r: Vec<u8>)
    ensures
        r@ == lit_clen_prefix(),
{
    let a: [u8; 18] = [13u8, 10u8, 'C' as u8, 'o' as u8, 'n' as u8, 't' as u8, 'e' as u8, 'n' as u8, 't' as u8, '-' as u8, 'L' as u8, 'e' as u8, 'n' as u8, 'g' as u8, 't' as u8, 'h' as u8, ':' as u8, ' ' as u8];
    let r = vstd::slice::slice_to_vec(a.as_slice());
    proof {
        assert(r@ =~= lit_clen_prefix());
    }
    r
}

/// The bytes of `"Content-Encoding: gzip\r\n\r\n"`.
pub open spec fn lit_gzip_tail() -> Seq<u8> {
    seq!['C' as u8, 'o' as u8, 'n' as u8, 't' as u8, 'e' as u8, 'n' as u8, 't' as u8, '-' as u8, 'E' as u8, 'n' as u8, 'c' as u8, 'o' as u8, 'd' as u8, 'i' as u8, 'n' as u8, 'g' as u8, ':' as u8, ' ' as u8, 'g' as u8, 'z' as u8, 'i' as u8, 'p' as u8, 13u8, 10u8, 13u8, 10u8]
}

/// A fresh vector holding `"Content-Encoding: gzip\r\n\r\n"`.
pub fn gzip_tail_vec() -> (r: Vec<u8>)
    ensures
        r@ == lit_gzip_tail(),
{
    let a: [u8; 26] = ['C' as u8, 'o' as u8, 'n' as u8, 't' as u8, 'e' as u8, 'n' as u8, 't' as u8, '-' as u8, 'E' as u8, 'n' as u8, 'c' as u8, 'o' as u8, 'd' as u8, 'i' as u8, 'n' as u8, 'g' as u8, ':' as u8, ' ' as u8, 'g' as u8, 'z' as u8, 'i' as u8, 'p' as u8, 13u8, 10u8, 13u8, 10u8];
    let r = vstd::slice::slice_to_vec(a.as_slice());
    proof {
        assert(r@ =~= lit_gzip_tail());
    }
    r
}

/// The bytes of `"200 OK"`.
pub open spec fn lit_status_ok() -> Seq<u8> {
    seq!['2' as u8, '0' as u8, '0' as u8, ' ' as u8, 'O' as u8, 'K' as u8]
}

/// A fresh vector holding `"200 OK"`.
pub fn status_ok_vec() -> (r: Vec<u8>)
    ensures
        r@ == lit_status_ok(),
{
    let a: [u8; 6] = ['2' as u8, '0' as u8, '0' as u8, ' ' as u8, 'O' as u8, 'K' as u8];
    let r = vstd::slice::slice_to_vec(a.as_slice());
    proof {
        assert(r@ =~= lit_status_ok());
    }
    r
}

/// The bytes of `"text/plain"`.
pub open spec fn lit_ctype_text() -> Seq<u8> {
    seq!['t' as u8, 'e' as u8, 'x' as u8, 't' as u8, '/' as u8, 'p' as u8, 'l' as u8, 'a' as u8, 'i' as u8, 'n' as u8]
}

/// A fresh vector holding `"text/plain"`.
pub fn ctype_text_vec() -> (r: Vec<u8>)
    ensures
        r@ == lit_ctype_text(),
{
    let a: [u8; 10] = ['t' as u8, 'e' as u8, 'x' as u8, 't' as u8, '/' as u8, 'p' as u8, 'l' as u8, 'a' as u8, 'i' as u8, 'n' as u8];
    let r = vstd::slice::slice_to_vec(a.as_slice());
    proof {
        assert(r@ =~= lit_ctype_text());
    }
    r
}

/// The bytes of `"application/octet-stream"`.
pub open spec fn lit_ctype_octet() -> Seq<u8> {
    seq!['a' as u8, 'p' as u8, 'p' as u8, 'l' as u8, 'i' as u8, 'c' as u8, 'a' as u8, 't' as u8, 'i' as u8, 'o' as u8, 'n' as u8, '/' as u8, 'o' as u8, 'c' as u8, 't' as u8, 'e' as u8, 't' as u8, '-' as u8, 's' as u8, 't' as u8, 'r' as u8, 'e' as u8, 'a' as u8, 'm' as u8]
}

/// A fresh vector holding `"application/octet-stream"`.
pub fn ctype_octet_vec() -> (r: Vec<u8>)
    ensures
        r@ == lit_ctype_octet(),
{
    let a: [u8; 24] = ['a' as u8, 'p' as u8, 'p' as u8, 'l' as u8, 'i' as u8, 'c' as u8, 'a' as u8, 't' as u8, 'i' as u8, 'o' as u8, 'n' as u8, '/' as u8, 'o' as u8, 'c' as u8, 't' as u8, 'e' as u8, 't' as u8, '-' as u8, 's' as u8, 't' as u8, 'r' as u8, 'e' as u8, 'a' as u8, 'm' as u8];
    let r = vstd::slice::slice_to_vec(a.as_slice());
    proof {
        assert(r@ =~= lit_ctype_octet());
    }
    r
}

/// The bytes of `"HTTP/1.1 200 OK\r\n\r\n"`.
pub open spec fn lit_resp_200() -> Seq<u8> {
    seq!['H' as u8, 'T' as u8, 'T' as u8, 'P' as u8, '/' as u8, '1' as u8, '.' as u8, '1' as u8, ' ' as u8, '2' as u8, '0' as u8, '0' as u8, ' ' as u8, 'O' as u8, 'K' as u8, 13u8, 10u8, 13u8, 10u8]
}

/// A fresh vector holding `"HTTP/1.1 200 OK\r\n\r\n"`.
pub fn resp_200_vec() -> (r: Vec<u8>)
    ensures
        r@ == lit_resp_200(),
{
    let a: [u8; 19] = ['H' as u8, 'T' as u8, 'T' as u8, 'P' as u8, '/' as u8, '1' as u8, '.' as u8, '1' as u8, ' ' as u8, '2' as u8, '0' as u8, '0' as u8, ' ' as u8, 'O' as u8, 'K' as u8, 13u8, 10u8, 13u8, 10u8];
    let r = vstd::slice::slice_to_vec(a.as_slice());
    proof {
        assert(r@ =~= lit_resp_200());
    }
    r
}

/// The bytes of `"HTTP/1.1 201 Created\r\n\r\n"`.
pub open spec fn lit_resp_201() -> Seq<u8> {
    seq!['H' as u8, 'T' as u8, 'T' as u8, 'P' as u8, '/' as u8, '1' as u8, '.' as u8, '1' as u8, ' ' as u8, '2' as u8, '0' as u8, '1' as u8, ' ' as u8, 'C' as u8, 'r' as u8, 'e' as u8, 'a' as u8, 't' as u8, 'e' as u8, 'd' as u8, 13u8, 10u8, 13u8, 10u8]
}

/// A fresh vector holding `"HTTP/1.1 201 Created\r\n\r\n"`.
pub fn resp_201_vec() -> (r: Vec<u8>)
    ensures
        r@ == lit_resp_201(),
{
    let a: [u8; 24] = ['H' as u8, 'T' as u8, 'T' as u8, 'P' as u8, '/' as u8, '1' as u8, '.' as u8, '1' as u8, ' ' as u8, '2' as u8, '0' as u8, '1' as u8, ' ' as u8, 'C' as u8, 'r' as u8, 'e' as u8, 'a' as u8, 't' as u8, 'e' as u8, 'd' as u8, 13u8, 10u8, 13u8, 10u8];
    let r = vstd::slice::slice_to_vec(a.as_slice());
    proof {
        assert(r@ =~= lit_resp_201());
    }
    r
}

/// The bytes of `"HTTP/1.1 400 Bad Request\r\n\r\n"`.
pub open spec fn lit_resp_400() -> Seq<u8> {
    seq!['H' as u8, 'T' as u8, 'T' as u8, 'P' as u8, '/' as u8, '1' as u8, '.' as u8, '1' as u8, ' ' as u8, '4' as u8, '0' as u8, '0' as u8, ' ' as u8, 'B' as u8, 'a' as u8, 'd' as u8, ' ' as u8, 'R' as u8, 'e' as u8, 'q' as u8, 'u' as u8, 'e' as u8, 's' as u8, 't' as u8, 13u8, 10u8, 13u8, 10u8]
}

/// A fresh vector holding `"HTTP/1.1 400 Bad Request\r\n\r\n"`.
pub fn resp_400_vec() -> (r: Vec<u8>)
    ensures
        r@ == lit_resp_400(),
{
    let a: [u8; 28] = ['H' as u8, 'T' as u8, 'T' as u8, 'P' as u8, '/' as u8, '1' as u8, '.' as u8, '1' as u8, ' ' as u8, '4' as u8, '0' as u8, '0' as u8, ' ' as u8, 'B' as u8, 'a' as u8, 'd' as u8, ' ' as u8, 'R' as u8, 'e' as u8, 'q' as u8, 'u' as u8, 'e' as u8, 's' as u8, 't' as u8, 13u8, 10u8, 13u8, 10u8];
    let r = vstd::slice::slice_to_vec(a.as_slice());
    proof {
        assert(r@ =~= lit_resp_400());
    }
    r
}

/// The bytes of `"HTTP/1.1 404 Not Found\r\n\r\n"`.
pub open spec fn lit_resp_404() -> Seq<u8> {
    seq!['H' as u8, 'T' as u8, 'T' as u8, 'P' as u8, '/' as u8, '1' as u8, '.' as u8, '1' as u8, ' ' as u8, '4' as u8, '0' as u8, '4' as u8, ' ' as u8, 'N' as u8, 'o' as u8, 't' as u8, ' ' as u8, 'F' as u8, 'o' as u8, 'u' as u8, 'n' as u8, 'd' as u8, 13u8, 10u8, 13u8, 10u8]
}

/// A fresh vector holding `"HTTP/1.1 404 Not Found\r\n\r\n"`.
pub fn resp_404_vec() -> (r: Vec<u8>)
    ensures
        r@ == lit_resp_404(),
{
    let a: [u8; 26] = ['H' as u8, 'T' as u8, 'T' as u8, 'P' as u8, '/' as u8, '1' as u8, '.' as u8, '1' as u8, ' ' as u8, '4' as u8, '0' as u8, '4' as u8, ' ' as u8, 'N' as u8, 'o' as u8, 't' as u8, ' ' as u8, 'F' as u8, 'o' as u8, 'u' as u8, 'n' as u8, 'd' as u8, 13u8, 10u8, 13u8, 10u8];
    let r = vstd::slice::slice_to_vec(a.as_slice());
    proof {
        assert(r@ =~= lit_resp_404());
    }
    r
}

/// The bytes of `"HTTP/1.1 404 Not Found"`.
pub open spec fn lit_resp_404_line() -> Seq<u8> {
    seq!['H' as u8, 'T' as u8, 'T' as u8, 'P' as u8, '/' as u8, '1' as u8, '.' as u8, '1' as u8, ' ' as u8, '4' as u8, '0' as u8, '4' as u8, ' ' as u8, 'N' as u8, 'o' as u8, 't' as u8, ' ' as u8, 'F' as u8, 'o' as u8, 'u' as u8, 'n' as u8, 'd' as u8]
}

/// A fresh vector holding `"HTTP/1.1 404 Not Found"`.
pub fn resp_404_line_vec() -> (r: Vec<u8>)
    ensures
        r@ == lit_resp_404_line(),
{
    let a: [u8; 22] = ['H' as u8, 'T' as u8, 'T' as u8, 'P' as u8, '/' as u8, '1' as u8, '.' as u8, '1' as u8, ' ' as u8, '4' as u8, '0' as u8, '4' as u8, ' ' as u8, 'N' as u8, 'o' as u8, 't' as u8, ' ' as u8, 'F' as u8, 'o' as u8, 'u' as u8, 'n' as u8, 'd' as u8];
    let r = vstd::slice::slice_to_vec(a.as_slice());
    proof {
        assert(r@ =~= lit_resp_404_line());
    }
    r
}

/// The bytes of `"HTTP/1.1 500 Internal Server Error\r\n\r\n"`.
pub open spec fn lit_resp_500() -> Seq<u8> {
    seq!['H' as u8, 'T' as u8, 'T' as u8, 'P' as u8, '/' as u8, '1' as u8, '.' as u8, '1' as u8, ' ' as u8, '5' as u8, '0' as u8, '0' as u8, ' ' as u8, 'I' as u8, 'n' as u8, 't' as u8, 'e' as u8, 'r' as u8, 'n' as u8, 'a' as u8, 'l' as u8, ' ' as u8, 'S' as u8, 'e' as u8, 'r' as u8, 'v' as u8, 'e' as u8, 'r' as u8, ' ' as u8, 'E' as u8, 'r' as u8, 'r' as u8, 'o' as u8, 'r' as u8, 13u8, 10u8, 13u8, 10u8]
}

/// A fresh vector holding `"HTTP/1.1 500 Internal Server Error\r\n\r\n"`.
pub fn resp_500_vec() -> (r: Vec<u8>)
    ensures
        r@ == lit_resp_500(),
{
    let a: [u8; 38] = ['H' as u8, 'T' as u8, 'T' as u8, 'P' as u8, '/' as u8, '1' as u8, '.' as u8, '1' as u8, ' ' as u8, '5' as u8, '0' as u8, '0' as u8, ' ' as u8, 'I' as u8, 'n' as u8, 't' as u8, 'e' as u8, 'r' as u8, 'n' as u8, 'a' as u8, 'l' as u8, ' ' as u8, 'S' as u8, 'e' as u8, 'r' as u8, 'v' as u8, 'e' as u8, 'r' as u8, ' ' as u8, 'E' as u8, 'r' as u8, 'r' as u8, 'o' as u8, 'r' as u8, 13u8, 10u8, 13u8, 10u8];
    let r = vstd::slice::slice_to_vec(a.as_slice());
    proof {
        assert(r@ =~= lit_resp_500());
    }
    r
}

} // verus!
