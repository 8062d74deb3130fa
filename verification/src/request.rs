//! Request parsing: one buffered read from the socket is decoded into a
//! method, a path, a header mapping and an optional body, or rejected as
//! malformed.
use vstd::prelude::*;

use crate::bytes::{
    copy_range, find_from, find_sub, split_ws, trim, trim_range, views,
};
use crate::lit::{lit_colon, lit_crlf, lit_crlf_crlf};

verus! {

/// The lines of `s`, split on CRLF. The separator is not part of any
/// line; a sequence without CRLF is a single line.
pub open spec fn split_lines(s: Seq<u8>) -> Seq<Seq<u8>>
    decreases s.len(),
    via split_lines_decreases
{
    match find_sub(s, lit_crlf()) {
        None => seq![s],
        Some(i) => seq![s.take(i)] + split_lines(s.skip(i + 2)),
    }
}

#[via_fn]
proof fn split_lines_decreases(s: Seq<u8>) {
    crate::bytes::lemma_find_sub_in_range(s, lit_crlf());
}

/// One parsed header line: the name before the first colon and the
/// value after it, both trimmed of surrounding whitespace. A line with
/// no colon does not parse.
pub open spec fn spec_header_line(l: Seq<u8>) -> Option<(Seq<u8>, Seq<u8>)> {
    match find_sub(l, lit_colon()) {
        None => None,
        Some(i) => Some((trim(l.take(i)), trim(l.skip(i + 1)))),
    }
}

/// All header lines parsed in order; `None` as soon as one is malformed.
pub open spec fn spec_headers(ls: Seq<Seq<u8>>) -> Option<Seq<(Seq<u8>, Seq<u8>)>>
    decreases ls.len(),
{
    if ls.len() == 0 {
        Some(seq![])
    } else {
        match spec_header_line(ls[0]) {
            None => None,
            Some(p) => match spec_headers(ls.skip(1)) {
                None => None,
                Some(rest) => Some(seq![p] + rest),
            },
        }
    }
}

/// The value of the header named `name`; on a duplicate name the last
/// occurrence wins.
pub open spec fn lookup(hs: Seq<(Seq<u8>, Seq<u8>)>, name: Seq<u8>) -> Option<Seq<u8>>
    decreases hs.len(),
{
    if hs.len() == 0 {
        None
    } else if hs.last().0 == name {
        Some(hs.last().1)
    } else {
        lookup(hs.drop_last(), name)
    }
}

/// The mathematical value of a parsed request.
pub struct ReqModel {
    pub verb: Seq<u8>,
    pub path: Seq<u8>,
    pub headers: Seq<(Seq<u8>, Seq<u8>)>,
    pub body: Option<Seq<u8>>,
}

/// What one buffered read parses to. The head before the first blank
/// line splits into the request line (at least three whitespace-
/// separated tokens; the second is the path and must start with `/`)
/// and the header lines; everything after the blank line, byte for
/// byte, is the body, absent when no bytes follow.
pub open spec fn spec_parse(input: Seq<u8>) -> Option<ReqModel> {
    match find_sub(input, lit_crlf_crlf()) {
        None => None,
        Some(i) => {
            let lines = split_lines(input.take(i));
            let toks = split_ws(lines[0]);
            if toks.len() < 3 || toks[1].len() == 0 || toks[1][0] != 47u8 {
                None
            } else {
                match spec_headers(lines.skip(1)) {
                    None => None,
                    Some(hs) => {
                        let tail = input.skip(i + 4);
                        Some(
                            ReqModel {
                                verb: toks[0],
                                path: toks[1],
                                headers: hs,
                                body: if tail.len() > 0 {
                                    Some(tail)
                                } else {
                                    None
                                },
                            },
                        )
                    },
                }
            }
        },
    }
}

/// One header as received: name and value, both already trimmed.
pub struct HeaderPair {
    pub name: Vec<u8>,
    pub value: Vec<u8>,
}

/// The views of a sequence of header pairs.
pub open spec fn hpair_views(v: Seq<HeaderPair>) -> Seq<(Seq<u8>, Seq<u8>)> {
    v.map_values(|h: HeaderPair| (h.name@, h.value@))
}

/// The header block of a request, in the order the lines appeared.
pub struct Headers {
    pub pairs: Vec<HeaderPair>,
}

impl View for Headers {
    type V = Seq<(Seq<u8>, Seq<u8>)>;

    open spec fn view(&self) -> Seq<(Seq<u8>, Seq<u8>)> {
        hpair_views(self.pairs@)
    }
}

impl Headers {
    /// The value stored under `name`, the last occurrence winning.
    pub fn get(&self, name: &[u8]) -> (r: Option<&Vec<u8>>)
        ensures
            match r {
                Some(v) => lookup(self@, name@) == Some(v@),
                None => lookup(self@, name@) is None,
            },
    {
        let mut k: usize = self.pairs.len();
        proof {
            assert(self@.take(k as int) =~= self@);
        }
        while k > 0
            invariant
                k <= self.pairs.len(),
                lookup(self@, name@) == lookup(self@.take(k as int), name@),
            decreases k,
        {
            let pair = &self.pairs[k - 1];
            if crate::bytes::bytes_eq(pair.name.as_slice(), name) {
                assert(self@.take(k as int).last() == (pair.name@, pair.value@));
                return Some(&pair.value);
            }
            proof {
                assert(self@.take(k as int).drop_last() =~= self@.take(k - 1));
            }
            k -= 1;
        }
        assert(self@.take(0) =~= Seq::<(Seq<u8>, Seq<u8>)>::empty());
        None
    }
}

/// A parsed request: method, path, headers, optional body.
pub struct HttpRequest {
    pub verb: Vec<u8>,
    pub path: Vec<u8>,
    pub headers: Headers,
    pub body: Option<Vec<u8>>,
}

/// The view of an optional byte vector.
pub open spec fn opt_bytes_view(o: Option<Vec<u8>>) -> Option<Seq<u8>> {
    match o {
        Some(v) => Some(v@),
        None => None,
    }
}

impl View for HttpRequest {
    type V = ReqModel;

    open spec fn view(&self) -> ReqModel {
        ReqModel {
            verb: self.verb@,
            path: self.path@,
            headers: self.headers@,
            body: opt_bytes_view(self.body),
        }
    }
}

/// Append to `out` the lines of `s` from position `start` on.
fn split_lines_into(s: &[u8], start: usize, out: &mut Vec<Vec<u8>>)
    requires
        start <= s@.len(),
    ensures
        views(final(out)@) == views(old(out)@) + split_lines(s@.skip(start as int)),
    decreases s@.len() - start,
{
    let ghost tail = s@.skip(start as int);
    let slen = s.len();
    let pat = crate::lit::crlf_vec();
    match find_from(s, pat.as_slice(), start) {
        None => {
            let line = copy_range(s, start, slen);
            proof {
                assert(line@ =~= tail);
            }
            let ghost before = out@;
            out.push(line);
            proof {
                assert(views(out@) =~= views(before) + seq![tail]);
            }
        },
        Some(j) => {
            let line = copy_range(s, start, j);
            proof {
                assert(tail.take(j - start) =~= line@);
                assert(tail.skip(j - start + 2) =~= s@.skip(j + 2));
            }
            let ghost before = out@;
            out.push(line);
            proof {
                assert(views(out@) =~= views(before) + seq![tail.take(j - start)]);
            }
            split_lines_into(s, j + 2, out);
        },
    }
}

/// First position at or after `start` holding whitespace, or the length.
fn ws_end(s: &[u8], start: usize) -> (e: usize)
    requires
        start <= s@.len(),
    ensures
        start <= e <= s@.len(),
        forall|j: int| start <= j < e ==> !crate::bytes::is_ws(s@[j]),
        e == s@.len() || crate::bytes::is_ws(s@[e as int]),
{
    let mut e = start;
    loop
        invariant
            start <= e <= s@.len(),
            forall|j: int| start <= j < e ==> !crate::bytes::is_ws(s@[j]),
        decreases s@.len() - e,
    {
        if e == s.len() {
            return e;
        }
        let b = s[e];
        if b == 32 || (9 <= b && b <= 13) {
            return e;
        }
        e += 1;
    }
}

/// Append to `out` the whitespace-separated tokens of `s` from `start` on.
fn tokens_into(s: &[u8], start: usize, out: &mut Vec<Vec<u8>>)
    requires
        start <= s@.len(),
    ensures
        views(final(out)@) == views(old(out)@) + split_ws(s@.skip(start as int)),
    decreases s@.len() - start,
{
    let ghost tail = s@.skip(start as int);
    if start == s.len() {
        proof {
            assert(tail =~= Seq::<u8>::empty());
        }
        return ;
    }
    let b = s[start];
    if b == 32 || (9 <= b && b <= 13) {
        proof {
            assert(tail.skip(1) =~= s@.skip(start as int + 1));
        }
        tokens_into(s, start + 1, out);
    } else {
        let e = ws_end(s, start);
        assert(e > start);
        proof {
            assert(forall|j: int| 0 <= j < e - start ==> tail[j] == s@[start + j]);
            crate::bytes::lemma_tok_len_eq(tail, e - start);
            assert(tail.take(e - start) =~= s@.subrange(start as int, e as int));
            assert(tail.skip(e - start) =~= s@.skip(e as int));
        }
        let tok = copy_range(s, start, e);
        let ghost before = out@;
        out.push(tok);
        proof {
            assert(views(out@) =~= views(before) + seq![tail.take(e - start)]);
        }
        tokens_into(s, e, out);
    }
}

/// Parse the lines from `idx` on as headers, pushing the pairs onto
/// `out`; false as soon as one line has no colon.
fn headers_into(lines: &Vec<Vec<u8>>, idx: usize, out: &mut Vec<HeaderPair>) -> (ok: bool)
    requires
        idx <= lines@.len(),
    ensures
        match spec_headers(views(lines@).skip(idx as int)) {
            Some(hs) => ok && hpair_views(final(out)@) == hpair_views(old(out)@) + hs,
            None => !ok,
        },
    decreases lines@.len() - idx,
{
    let ghost rest = views(lines@).skip(idx as int);
    if idx == lines.len() {
        proof {
            assert(rest =~= Seq::<Seq<u8>>::empty());
            assert(hpair_views(out@) =~= hpair_views(out@) + Seq::<(Seq<u8>, Seq<u8>)>::empty());
        }
        return true;
    }
    proof {
        assert(rest[0] == lines@[idx as int]@);
        assert(rest.skip(1) =~= views(lines@).skip(idx as int + 1));
    }
    let line = &lines[idx];
    let llen = line.len();
    let pat = crate::lit::colon_vec();
    match find_from(line.as_slice(), pat.as_slice(), 0) {
        None => {
            proof {
                assert(line@.skip(0) =~= line@);
            }
            false
        },
        Some(c) => {
            proof {
                assert(line@.skip(0) =~= line@);
                assert(line@.subrange(0, c as int) =~= line@.take(c as int));
                assert(line@.subrange(c as int + 1, line@.len() as int) =~= line@.skip(c + 1));
            }
            let name = trim_range(line.as_slice(), 0, c);
            let value = trim_range(line.as_slice(), c + 1, llen);
            let ghost pair = (name@, value@);
            let ghost before = out@;
            out.push(HeaderPair { name, value });
            proof {
                assert(hpair_views(out@) =~= hpair_views(before) + seq![pair]);
            }
            let ok = headers_into(lines, idx + 1, out);
            proof {
                match spec_headers(rest.skip(1)) {
                    Some(hs) => {
                        assert(hpair_views(before) + (seq![pair] + hs) =~= (hpair_views(before)
                            + seq![pair]) + hs);
                    },
                    None => {},
                }
            }
            ok
        },
    }
}

impl HttpRequest {
    /// Parse one buffered read. `None` exactly when the bytes do not
    /// form a request: no blank line ends the header block, the request
    /// line has fewer than three tokens, the path does not start with
    /// `/`, or a header line has no colon.
    pub fn parse(req: &[u8]) -> (r: Option<HttpRequest>)
        ensures
            r is Some <==> spec_parse(req@) is Some,
            r matches Some(q) ==> spec_parse(req@) == Some(q@),
    {
        proof {
            assert(req@.skip(0) =~= req@);
        }
        let rlen = req.len();
        let pat = crate::lit::crlf_crlf_vec();
        let i = match find_from(req, pat.as_slice(), 0) {
            None => {
                return None;
            },
            Some(i) => i,
        };
        let head = vstd::slice::slice_subrange(req, 0, i);
        proof {
            assert(head@ =~= req@.take(i as int));
            assert(head@.skip(0) =~= head@);
        }
        let mut lines: Vec<Vec<u8>> = Vec::new();
        split_lines_into(head, 0, &mut lines);
        proof {
            assert(views(lines@) =~= split_lines(req@.take(i as int)));
            assert(split_lines(req@.take(i as int)).len() >= 1);
        }
        let ghost spec_lines = split_lines(req@.take(i as int));
        let first = &lines[0];
        proof {
            assert(first@ == spec_lines[0]);
            assert(first@.skip(0) =~= first@);
        }
        let mut toks: Vec<Vec<u8>> = Vec::new();
        tokens_into(first.as_slice(), 0, &mut toks);
        proof {
            assert(views(toks@) =~= split_ws(spec_lines[0]));
        }
        let ghost spec_toks = split_ws(spec_lines[0]);
        if toks.len() < 3 {
            return None;
        }
        proof {
            assert(toks@[1]@ == spec_toks[1]);
            assert(toks@[0]@ == spec_toks[0]);
        }
        if toks[1].len() == 0 {
            return None;
        }
        if toks[1].as_slice()[0] != 47u8 {
            return None;
        }
        let mut pairs: Vec<HeaderPair> = Vec::new();
        let ok = headers_into(&lines, 1, &mut pairs);
        proof {
            assert(views(lines@).skip(1) =~= spec_lines.skip(1));
        }
        if !ok {
            return None;
        }
        proof {
            assert(hpair_views(Seq::<HeaderPair>::empty()) + spec_headers(
                spec_lines.skip(1),
            ).unwrap() =~= spec_headers(spec_lines.skip(1)).unwrap());
        }
        let tail = copy_range(req, i + 4, rlen);
        proof {
            assert(tail@ =~= req@.skip(i + 4));
        }
        let body: Option<Vec<u8>> = if tail.len() > 0 {
            Some(tail)
        } else {
            None
        };
        let path = toks.remove(1);
        let verb = toks.remove(0);
        proof {
            assert(verb@ == spec_toks[0]);
            assert(path@ == spec_toks[1]);
        }
        let q = HttpRequest { verb, path, headers: Headers { pairs }, body };
        proof {
            let m = spec_parse(req@).unwrap();
            assert(q@.verb == m.verb);
            assert(q@.path == m.path);
            assert(q@.headers == m.headers);
            assert(q@.body == m.body);
        }
        Some(q)
    }
}

} // verus!
