//! Protocol guarantees that relate the parser, the router and the
//! response builder, stated over all inputs and proved once and for all.
use vstd::prelude::*;

use crate::bytes::{decimal_of, decimal_value, lemma_decimal_of_value};
use crate::lit::{
    lit_clen_prefix, lit_crlf, lit_crlf_crlf, lit_ctype_prefix, lit_echo_prefix, lit_files_prefix,
    lit_get, lit_http_prefix, lit_post, lit_resp_200, lit_resp_404, lit_resp_404_line,
    lit_root_path, lit_user_agent_path,
};
use crate::handler::{spec_handle, StepModel};
use crate::request::spec_parse;
use crate::response::{spec_build, spec_encoding_tail, spec_head};

verus! {

/// `GET /` is always answered with exactly the fixed bytes
/// `HTTP/1.1 200 OK\r\n\r\n` — no headers beyond the status line and no
/// body — whatever else the request holds and whether or not a served
/// directory is configured.
pub proof fn lemma_root_always_fixed_ok(input: Seq<u8>, dir_configured: bool)
    requires
        spec_parse(input) matches Some(m) && m.verb == lit_get() && m.path == lit_root_path(),
    ensures
        spec_handle(input, dir_configured) == StepModel::Respond(lit_resp_200()),
{
    if input.len() == 0 {
        assert(spec_parse(input) is None);
    }
}

/// A request whose method and path pair matches none of the declared
/// rules is answered 404: the fixed status line, then the blank line,
/// then nothing — an empty body.
pub proof fn lemma_unmatched_is_not_found(input: Seq<u8>, dir_configured: bool)
    requires
        spec_parse(input) matches Some(m) && !(m.verb == lit_get() && m.path == lit_root_path())
            && !(m.verb == lit_get() && lit_echo_prefix().is_prefix_of(m.path)) && !(m.verb
            == lit_get() && m.path == lit_user_agent_path()) && !(m.verb == lit_get()
            && lit_files_prefix().is_prefix_of(m.path)) && !(m.verb == lit_post()
            && lit_files_prefix().is_prefix_of(m.path)),
    ensures
        spec_handle(input, dir_configured) == StepModel::Respond(lit_resp_404()),
        lit_resp_404() == lit_resp_404_line() + lit_crlf_crlf(),
{
    if input.len() == 0 {
        assert(spec_parse(input) is None);
    }
    assert(lit_resp_404() =~= lit_resp_404_line() + lit_crlf_crlf());
}

/// A parsed request's path is never empty and always starts with `/`.
pub proof fn lemma_parsed_path_well_formed(input: Seq<u8>)
    requires
        spec_parse(input) is Some,
    ensures
        spec_parse(input).unwrap().path.len() > 0,
        spec_parse(input).unwrap().path[0] == 47u8,
{
}

/// In every built response the bytes after the header block are exactly
/// the body handed in, and the `Content-Length` digits denote precisely
/// that body's byte count.
pub proof fn lemma_content_length_matches_body(
    status: Seq<u8>,
    ctype: Seq<u8>,
    enc: Option<Seq<u8>>,
    content: Seq<u8>,
)
    ensures
        spec_build(status, ctype, enc, content) == spec_head(
            status,
            ctype,
            enc,
            content.len() as int,
        ) + content,
        spec_head(status, ctype, enc, content.len() as int) == lit_http_prefix() + status
            + lit_ctype_prefix() + ctype + lit_clen_prefix() + decimal_of(content.len() as int)
            + lit_crlf() + spec_encoding_tail(enc),
        decimal_value(decimal_of(content.len() as int)) == content.len(),
        forall|i: int|
            0 <= i < decimal_of(content.len() as int).len() ==> 48 <= #[trigger] decimal_of(
                content.len() as int,
            )[i] <= 57,
{
    lemma_decimal_of_value(content.len() as int);
}

} // verus!
