//! Byte-sequence utilities shared by the parser, the router and the
//! response builder: substring search, whitespace handling, splitting
//! on CRLF, and decimal rendering of lengths.
use vstd::prelude::*;

verus! {

/// ASCII whitespace, as used to split the request line into tokens and
/// to trim header names and values.
pub open spec fn is_ws(b: u8) -> bool {
    b == 32 || (9 <= b && b <= 13)
}

/// Position of the first occurrence of `p` in `s`, if any.
pub open spec fn find_sub(s: Seq<u8>, p: Seq<u8>) -> Option<int>
    decreases s.len(),
{
    if s.len() < p.len() {
        None
    } else if s.take(p.len() as int) == p {
        Some(0int)
    } else if s.len() == 0 {
        None
    } else {
        match find_sub(s.skip(1), p) {
            Some(i) => Some(i + 1),
            None => None,
        }
    }
}

/// `s` contains `p` as a contiguous run of bytes.
pub open spec fn contains_sub(s: Seq<u8>, p: Seq<u8>) -> bool {
    find_sub(s, p) is Some
}

/// A found position lies within `s`, with room for the whole needle.
pub proof fn lemma_find_sub_in_range(s: Seq<u8>, p: Seq<u8>)
    ensures
        find_sub(s, p) matches Some(i) ==> 0 <= i && i + p.len() <= s.len(),
    decreases s.len(),
{
    if s.len() < p.len() {
    } else if s.take(p.len() as int) == p {
    } else if s.len() == 0 {
    } else {
        lemma_find_sub_in_range(s.skip(1), p);
    }
}

/// Compare `s[start .. start + p.len()]` with `p`.
fn eq_at(s: &[u8], p: &[u8], start: usize) -> (r: bool)
    requires
        start + p@.len() <= s@.len(),
    ensures
        r == (s@.subrange(start as int, start + p@.len()) == p@),
{
    let ghost sub = s@.subrange(start as int, start + p@.len());
    let slen = s.len();
    let mut k: usize = 0;
    while k < p.len()
        invariant
            slen == s@.len(),
            start + p@.len() <= s@.len(),
            0 <= k <= p@.len(),
            sub == s@.subrange(start as int, start + p@.len()),
            forall|j: int| 0 <= j < k ==> s@[start + j] == p@[j],
        decreases p@.len() - k,
    {
        if s[start + k] != p[k] {
            assert(sub[k as int] != p@[k as int]);
            return false;
        }
        k += 1;
    }
    assert(sub =~= p@);
    true
}

/// Whether two byte slices hold the same bytes.
pub fn bytes_eq(a: &[u8], b: &[u8]) -> (r: bool)
    ensures
        r == (a@ == b@),
{
    if a.len() != b.len() {
        return false;
    }
    let r = eq_at(a, b, 0);
    assert(a@.subrange(0, b@.len() as int) =~= a@);
    r
}

/// Whether `p` is a leading run of `s`.
pub fn starts_with(s: &[u8], p: &[u8]) -> (r: bool)
    ensures
        r == p@.is_prefix_of(s@),
{
    if p.len() > s.len() {
        return false;
    }
    eq_at(s, p, 0)
}

/// First occurrence of `p` in `s` at or after `start`, as a position in `s`.
pub fn find_from(s: &[u8], p: &[u8], start: usize) -> (r: Option<usize>)
    requires
        start <= s@.len(),
    ensures
        match r {
            Some(i) => start <= i && i + p@.len() <= s@.len() && find_sub(
                s@.skip(start as int),
                p@,
            ) == Some(i - start),
            None => find_sub(s@.skip(start as int), p@) is None,
        },
    decreases s@.len() - start,
{
    let ghost tail = s@.skip(start as int);
    if p.len() == 0 {
        assert(tail.take(0) =~= p@);
        return Some(start);
    }
    if s.len() - start < p.len() {
        return None;
    }
    proof {
        assert(tail.take(p@.len() as int) =~= s@.subrange(start as int, start + p@.len()));
    }
    if eq_at(s, p, start) {
        Some(start)
    } else {
        proof {
            assert(tail.skip(1) =~= s@.skip(start as int + 1));
        }
        match find_from(s, p, start + 1) {
            Some(i) => Some(i),
            None => None,
        }
    }
}

/// Copy `s[a .. b]` into a fresh vector.
pub fn copy_range(s: &[u8], a: usize, b: usize) -> (r: Vec<u8>)
    requires
        a <= b <= s@.len(),
    ensures
        r@ == s@.subrange(a as int, b as int),
{
    let sub = vstd::slice::slice_subrange(s, a, b);
    vstd::slice::slice_to_vec(sub)
}

/// Append every byte of `s` to `out`.
pub fn push_all(out: &mut Vec<u8>, s: &[u8])
    ensures
        final(out)@ == old(out)@ + s@,
{
    let ghost base = old(out)@;
    assert(base + s@.take(0) =~= base);
    let mut k: usize = 0;
    while k < s.len()
        invariant
            0 <= k <= s@.len(),
            out@ == base + s@.take(k as int),
        decreases s@.len() - k,
    {
        out.push(s[k]);
        assert(base + s@.take(k + 1) =~= (base + s@.take(k as int)).push(s@[k as int]));
        k += 1;
    }
    assert(base + s@.take(s@.len() as int) =~= base + s@);
}

/// Length of the leading run of non-whitespace bytes.
pub open spec fn tok_len(s: Seq<u8>) -> int
    decreases s.len(),
{
    if s.len() == 0 || is_ws(s[0]) {
        0
    } else {
        1 + tok_len(s.skip(1))
    }
}

pub proof fn lemma_tok_len_bounds(s: Seq<u8>)
    ensures
        0 <= tok_len(s) <= s.len(),
    decreases s.len(),
{
    if s.len() == 0 || is_ws(s[0]) {
    } else {
        lemma_tok_len_bounds(s.skip(1));
    }
}

/// The leading token is exactly the run of non-whitespace bytes before
/// the first whitespace byte (or the whole sequence).
pub proof fn lemma_tok_len_eq(s: Seq<u8>, k: int)
    requires
        0 <= k <= s.len(),
        forall|j: int| 0 <= j < k ==> !is_ws(s[j]),
        k == s.len() || is_ws(s[k]),
    ensures
        tok_len(s) == k,
    decreases k,
{
    if k == 0 {
    } else {
        assert(!is_ws(s[0]));
        lemma_tok_len_eq(s.skip(1), k - 1);
    }
}

/// The request line's tokens: maximal runs of non-whitespace bytes.
pub open spec fn split_ws(s: Seq<u8>) -> Seq<Seq<u8>>
    decreases s.len(),
    via split_ws_decreases
{
    if s.len() == 0 {
        seq![]
    } else if is_ws(s[0]) {
        split_ws(s.skip(1))
    } else {
        seq![s.take(tok_len(s))] + split_ws(s.skip(tok_len(s)))
    }
}

#[via_fn]
proof fn split_ws_decreases(s: Seq<u8>) {
    if s.len() > 0 && !is_ws(s[0]) {
        lemma_tok_len_bounds(s);
        lemma_tok_len_bounds(s.skip(1));
    }
}

/// `s` with leading and trailing whitespace removed.
pub open spec fn trim(s: Seq<u8>) -> Seq<u8>
    decreases s.len(),
{
    if s.len() == 0 {
        s
    } else if is_ws(s[0]) {
        trim(s.skip(1))
    } else if is_ws(s[s.len() - 1]) {
        trim(s.drop_last())
    } else {
        s
    }
}

fn is_ws_byte(b: u8) -> (r: bool)
    ensures
        r == is_ws(b),
{
    b == 32 || (9 <= b && b <= 13)
}

/// Copy `s[a .. b]` with surrounding whitespace removed.
pub fn trim_range(s: &[u8], a: usize, b: usize) -> (r: Vec<u8>)
    requires
        a <= b <= s@.len(),
    ensures
        r@ == trim(s@.subrange(a as int, b as int)),
    decreases b - a,
{
    let ghost sub = s@.subrange(a as int, b as int);
    if a == b {
        Vec::new()
    } else if is_ws_byte(s[a]) {
        proof {
            assert(sub.skip(1) =~= s@.subrange(a + 1, b as int));
        }
        trim_range(s, a + 1, b)
    } else if is_ws_byte(s[b - 1]) {
        proof {
            assert(sub.drop_last() =~= s@.subrange(a as int, b - 1));
        }
        trim_range(s, a, b - 1)
    } else {
        copy_range(s, a, b)
    }
}

/// The decimal numeral of `n`, most significant digit first.
pub open spec fn decimal_of(n: int) -> Seq<u8>
    recommends
        n >= 0,
    decreases n,
{
    if n < 10 {
        seq![(48 + n) as u8]
    } else {
        decimal_of(n / 10) + seq![(48 + n % 10) as u8]
    }
}

/// The number a run of decimal digits denotes.
pub open spec fn decimal_value(s: Seq<u8>) -> int
    decreases s.len(),
{
    if s.len() == 0 {
        0
    } else {
        decimal_value(s.drop_last()) * 10 + ((s.last() as int) - 48)
    }
}

/// The numeral of `n` is non-empty, all digits, and denotes `n` itself.
pub proof fn lemma_decimal_of_value(n: int)
    requires
        n >= 0,
    ensures
        decimal_of(n).len() >= 1,
        forall|i: int| 0 <= i < decimal_of(n).len() ==> 48 <= #[trigger] decimal_of(n)[i] <= 57,
        decimal_value(decimal_of(n)) == n,
    decreases n,
{
    if n < 10 {
        assert(decimal_of(n) == seq![(48 + n) as u8]);
        assert(decimal_of(n).drop_last() =~= Seq::<u8>::empty());
        assert(decimal_of(n).last() == (48 + n) as u8);
        assert(decimal_value(decimal_of(n)) == decimal_value(Seq::<u8>::empty()) * 10 + (
        (decimal_of(n).last() as int) - 48));
        assert(decimal_value(decimal_of(n)) == n);
    } else {
        lemma_decimal_of_value(n / 10);
        assert(0 <= n % 10 < 10) by (nonlinear_arith)
            requires
                n >= 10,
        ;
        let d = decimal_of(n);
        assert(d == decimal_of(n / 10) + seq![(48 + n % 10) as u8]);
        assert(d.drop_last() =~= decimal_of(n / 10));
        assert(d.last() == (48 + n % 10) as u8);
        assert(decimal_value(d) == decimal_value(d.drop_last()) * 10 + ((d.last() as int) - 48));
        assert((d.last() as int) - 48 == n % 10);
        vstd::arithmetic::div_mod::lemma_fundamental_div_mod(n, 10);
        assert(n == 10 * (n / 10) + n % 10);
        assert(decimal_value(d) == n);
    }
}

/// Render `n` in decimal.
pub fn decimal_bytes(n: usize) -> (r: Vec<u8>)
    ensures
        r@ == decimal_of(n as int),
    decreases n,
{
    if n < 10 {
        let mut v: Vec<u8> = Vec::new();
        v.push(48 + (n as u8));
        assert(v@ =~= seq![(48 + n) as u8]);
        v
    } else {
        let mut v = decimal_bytes(n / 10);
        v.push(48 + ((n % 10) as u8));
        assert(v@ =~= decimal_of((n / 10) as int) + seq![(48 + (n as int) % 10) as u8]);
        v
    }
}

/// The views of a sequence of byte vectors.
pub open spec fn views(v: Seq<Vec<u8>>) -> Seq<Seq<u8>> {
    v.map_values(|x: Vec<u8>| x@)
}

} // verus!
