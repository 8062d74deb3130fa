//! The per-connection decision step. One connection performs one read;
//! this module turns those bytes into either response bytes to write, a
//! file operation to perform, or a silent close. The caller does the
//! blocking work (socket write, file read or write) and, for the file
//! routes, hands the outcome back to `respond_file_read` or
//! `respond_file_write`.
use vstd::prelude::*;

use crate::bytes::views;
use crate::lit::{
    lit_ctype_octet, lit_ctype_text, lit_hdr_accept_encoding, lit_hdr_user_agent, lit_resp_200,
    lit_resp_201, lit_resp_400, lit_resp_404, lit_resp_500, lit_status_ok,
};
use crate::request::{lookup, opt_bytes_view, spec_parse, HttpRequest, ReqModel};
use crate::response::{opt_slice_view, spec_build, HttpResponse};
use crate::router::{route, spec_route, RouteAction, RouteModel};

verus! {

/// The mathematical value of a connection step.
pub enum StepModel {
    /// Close without writing anything: the read was empty or malformed.
    CloseSilently,
    /// Write these bytes and close.
    Respond(Seq<u8>),
    /// Read the named file under the served directory, then answer
    /// through `respond_file_read`.
    ReadFile(Seq<u8>),
    /// Create or truncate the named file with these body bytes, then
    /// answer through `respond_file_write`.
    WriteFile(Seq<u8>, Seq<u8>),
}

/// What the handler decides for one connection.
pub enum ConnectionStep {
    CloseSilently,
    Respond(Vec<u8>),
    ReadFile(Vec<u8>),
    WriteFile(Vec<u8>, Vec<u8>),
}

impl View for ConnectionStep {
    type V = StepModel;

    open spec fn view(&self) -> StepModel {
        match self {
            ConnectionStep::CloseSilently => StepModel::CloseSilently,
            ConnectionStep::Respond(b) => StepModel::Respond(b@),
            ConnectionStep::ReadFile(n) => StepModel::ReadFile(n@),
            ConnectionStep::WriteFile(n, b) => StepModel::WriteFile(n@, b@),
        }
    }
}

/// A missing body posts as an empty one.
pub open spec fn spec_body_or_empty(b: Option<Seq<u8>>) -> Seq<u8> {
    match b {
        Some(s) => s,
        None => Seq::empty(),
    }
}

/// The step a parsed request leads to. The echo route answers with the
/// captured text; the user-agent route echoes the `User-Agent` header
/// and rejects its absence; the file routes reach the file store only
/// when a served directory is configured; everything else is 404.
pub open spec fn spec_dispatch(m: ReqModel, dir_configured: bool) -> StepModel {
    match spec_route(m.verb, m.path) {
        RouteModel::Root => StepModel::Respond(lit_resp_200()),
        RouteModel::Echo(text) => StepModel::Respond(
            spec_build(
                lit_status_ok(),
                lit_ctype_text(),
                lookup(m.headers, lit_hdr_accept_encoding()),
                text,
            ),
        ),
        RouteModel::UserAgent => match lookup(m.headers, lit_hdr_user_agent()) {
            Some(ua) => StepModel::Respond(spec_build(lit_status_ok(), lit_ctype_text(), None, ua)),
            None => StepModel::Respond(lit_resp_400()),
        },
        RouteModel::FileGet(name) => if dir_configured {
            StepModel::ReadFile(name)
        } else {
            StepModel::Respond(lit_resp_404())
        },
        RouteModel::FilePost(name) => if dir_configured {
            StepModel::WriteFile(name, spec_body_or_empty(m.body))
        } else {
            StepModel::Respond(lit_resp_404())
        },
        RouteModel::NotFound => StepModel::Respond(lit_resp_404()),
    }
}

/// The step one buffered read leads to: an empty read means the peer
/// closed, a malformed request is dropped without a response.
pub open spec fn spec_handle(input: Seq<u8>, dir_configured: bool) -> StepModel {
    if input.len() == 0 {
        StepModel::CloseSilently
    } else {
        match spec_parse(input) {
            None => StepModel::CloseSilently,
            Some(m) => spec_dispatch(m, dir_configured),
        }
    }
}

/// Decide what one connection's read leads to. `dir_configured` says
/// whether a served directory was given at startup.
pub fn handle_read(input: &[u8], dir_configured: bool) -> (r: ConnectionStep)
    ensures
        r@ == spec_handle(input@, dir_configured),
{
    if input.len() == 0 {
        return ConnectionStep::CloseSilently;
    }
    let req = match HttpRequest::parse(input) {
        None => {
            return ConnectionStep::CloseSilently;
        },
        Some(req) => req,
    };
    match route(req.verb.as_slice(), req.path.as_slice()) {
        RouteAction::Root => ConnectionStep::Respond(crate::lit::resp_200_vec()),
        RouteAction::Echo(text) => {
            let key = crate::lit::hdr_accept_encoding_vec();
            let enc: Option<&[u8]> = match req.headers.get(key.as_slice()) {
                Some(v) => Some(v.as_slice()),
                None => None,
            };
            let status = crate::lit::status_ok_vec();
            let ctype = crate::lit::ctype_text_vec();
            let body = HttpResponse::build(status.as_slice(), ctype.as_slice(), enc,
                text.as_slice());
            ConnectionStep::Respond(body)
        },
        RouteAction::UserAgent => {
            let key = crate::lit::hdr_user_agent_vec();
            match req.headers.get(key.as_slice()) {
                Some(ua) => {
                    let status = crate::lit::status_ok_vec();
                    let ctype = crate::lit::ctype_text_vec();
                    let body = HttpResponse::build(status.as_slice(), ctype.as_slice(), None,
                        ua.as_slice());
                    ConnectionStep::Respond(body)
                },
                None => ConnectionStep::Respond(crate::lit::resp_400_vec()),
            }
        },
        RouteAction::FileGet(name) => {
            if dir_configured {
                ConnectionStep::ReadFile(name)
            } else {
                ConnectionStep::Respond(crate::lit::resp_404_vec())
            }
        },
        RouteAction::FilePost(name) => {
            if dir_configured {
                let body: Vec<u8> = match req.body {
                    Some(b) => b,
                    None => Vec::new(),
                };
                ConnectionStep::WriteFile(name, body)
            } else {
                ConnectionStep::Respond(crate::lit::resp_404_vec())
            }
        },
        RouteAction::NotFound => ConnectionStep::Respond(crate::lit::resp_404_vec()),
    }
}

/// Answer a `GET /files/<name>` request from what the file store found:
/// the whole file as an `application/octet-stream` body, or 404 when the
/// file is missing or unreadable.
pub fn respond_file_read(contents: Option<Vec<u8>>) -> (r: Vec<u8>)
    ensures
        r@ == match opt_bytes_view(contents) {
            Some(c) => spec_build(lit_status_ok(), lit_ctype_octet(), None, c),
            None => lit_resp_404(),
        },
{
    match contents {
        Some(c) => {
            let status = crate::lit::status_ok_vec();
            let ctype = crate::lit::ctype_octet_vec();
            HttpResponse::build(status.as_slice(), ctype.as_slice(), None, c.as_slice())
        },
        None => crate::lit::resp_404_vec(),
    }
}

/// Answer a `POST /files/<name>` request from the file store's outcome:
/// 201 when the write succeeded, 500 when it failed.
pub fn respond_file_write(ok: bool) -> (r: Vec<u8>)
    ensures
        r@ == if ok {
            lit_resp_201()
        } else {
            lit_resp_500()
        },
{
    if ok {
        crate::lit::resp_201_vec()
    } else {
        crate::lit::resp_500_vec()
    }
}

} // verus!
