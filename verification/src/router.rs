//! Route dispatch: a fixed table of (method, exact-or-prefix path)
//! rules, tried in declaration order on raw bytes; the first match
//! wins, no match is "not found".
use vstd::prelude::*;

use crate::bytes::{bytes_eq, copy_range, starts_with};
use crate::lit::{
    lit_echo_prefix, lit_files_prefix, lit_get, lit_post, lit_root_path, lit_user_agent_path,
};

verus! {

/// The mathematical value of a routing decision.
pub enum RouteModel {
    Root,
    Echo(Seq<u8>),
    UserAgent,
    FileGet(Seq<u8>),
    FilePost(Seq<u8>),
    NotFound,
}

/// Which rule a (method, path) pair selects, in declaration order:
/// `GET /`, `GET /echo/<text>`, `GET /user-agent`, `GET /files/<name>`,
/// `POST /files/<name>`; a prefix rule captures the remaining path
/// bytes. Anything else is not found.
pub open spec fn spec_route(method: Seq<u8>, path: Seq<u8>) -> RouteModel {
    if method == lit_get() && path == lit_root_path() {
        RouteModel::Root
    } else if method == lit_get() && lit_echo_prefix().is_prefix_of(path) {
        RouteModel::Echo(path.skip(lit_echo_prefix().len() as int))
    } else if method == lit_get() && path == lit_user_agent_path() {
        RouteModel::UserAgent
    } else if method == lit_get() && lit_files_prefix().is_prefix_of(path) {
        RouteModel::FileGet(path.skip(lit_files_prefix().len() as int))
    } else if method == lit_post() && lit_files_prefix().is_prefix_of(path) {
        RouteModel::FilePost(path.skip(lit_files_prefix().len() as int))
    } else {
        RouteModel::NotFound
    }
}

/// A routing decision with its captured path remainder, if any.
pub enum RouteAction {
    Root,
    Echo(Vec<u8>),
    UserAgent,
    FileGet(Vec<u8>),
    FilePost(Vec<u8>),
    NotFound,
}

impl View for RouteAction {
    type V = RouteModel;

    open spec fn view(&self) -> RouteModel {
        match self {
            RouteAction::Root => RouteModel::Root,
            RouteAction::Echo(t) => RouteModel::Echo(t@),
            RouteAction::UserAgent => RouteModel::UserAgent,
            RouteAction::FileGet(n) => RouteModel::FileGet(n@),
            RouteAction::FilePost(n) => RouteModel::FilePost(n@),
            RouteAction::NotFound => RouteModel::NotFound,
        }
    }
}

/// Select the first matching rule for a method and path, both taken as
/// raw bytes, case-sensitively.
pub fn route(method: &[u8], path: &[u8]) -> (r: RouteAction)
    ensures
        r@ == spec_route(method@, path@),
{
    let plen = path.len();
    let get = crate::lit::get_vec();
    let post = crate::lit::post_vec();
    if bytes_eq(method, get.as_slice()) {
        let root = crate::lit::root_path_vec();
        if bytes_eq(path, root.as_slice()) {
            return RouteAction::Root;
        }
        let echo = crate::lit::echo_prefix_vec();
        if starts_with(path, echo.as_slice()) {
            let captured = copy_range(path, 6, plen);
            proof {
                assert(captured@ =~= path@.skip(6));
            }
            return RouteAction::Echo(captured);
        }
        let ua = crate::lit::user_agent_path_vec();
        if bytes_eq(path, ua.as_slice()) {
            return RouteAction::UserAgent;
        }
        let files = crate::lit::files_prefix_vec();
        if starts_with(path, files.as_slice()) {
            let captured = copy_range(path, 7, plen);
            proof {
                assert(captured@ =~= path@.skip(7));
            }
            return RouteAction::FileGet(captured);
        }
        return RouteAction::NotFound;
    }
    if bytes_eq(method, post.as_slice()) {
        let files = crate::lit::files_prefix_vec();
        if starts_with(path, files.as_slice()) {
            let captured = copy_range(path, 7, plen);
            proof {
                assert(captured@ =~= path@.skip(7));
            }
            return RouteAction::FilePost(captured);
        }
        return RouteAction::NotFound;
    }
    RouteAction::NotFound
}

} // verus!
