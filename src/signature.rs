//! Wildcard byte signatures: their text form and where they occur in a buffer.
//!
//! A signature is written as tokens separated by whitespace; a token is two
//! hex digits, in either case, or a wildcard `?` / `??` that matches any byte.

use vstd::prelude::*;
use vstd::string::StringSliceAdditionalSpecFns;

verus! {

/// A compiled signature: a literal byte, or `None` for a wildcard.
pub type Pattern = Seq<Option<u8>>;

pub open spec fn is_space(c: u8) -> bool {
    c == 0x20 || c == 0x09 || c == 0x0A || c == 0x0D
}

pub open spec fn hex_digit(c: u8) -> Option<u8> {
    if 0x30 <= c <= 0x39 {
        Some((c - 0x30) as u8)
    } else if 0x61 <= c <= 0x66 {
        Some((c - 0x61 + 10) as u8)
    } else if 0x41 <= c <= 0x46 {
        Some((c - 0x41 + 10) as u8)
    } else {
        None
    }
}

/// What one token stands for, or `None` for a malformed token.
pub open spec fn token_value(t: Seq<u8>) -> Option<Option<u8>> {
    if t == seq![0x3Fu8] || t == seq![0x3Fu8, 0x3Fu8] {
        Some(None)
    } else if t.len() == 2 && hex_digit(t[0]) is Some && hex_digit(t[1]) is Some {
        Some(Some((hex_digit(t[0])->0 * 16 + hex_digit(t[1])->0) as u8))
    } else {
        None
    }
}

/// Parses `s` from position `i` on, where `tok` holds the characters of the
/// token begun before `i`.
pub open spec fn parse_from(s: Seq<u8>, i: int, tok: Seq<u8>) -> Option<Pattern>
    decreases s.len() - i,
{
    if i >= s.len() || i < 0 {
        if tok.len() == 0 {
            Some(seq![])
        } else {
            match token_value(tok) {
                Some(v) => Some(seq![v]),
                None => None,
            }
        }
    } else if is_space(s[i]) {
        if tok.len() == 0 {
            parse_from(s, i + 1, tok)
        } else {
            match token_value(tok) {
                Some(v) => match parse_from(s, i + 1, seq![]) {
                    Some(rest) => Some(seq![v] + rest),
                    None => None,
                },
                None => None,
            }
        }
    } else {
        parse_from(s, i + 1, tok.push(s[i]))
    }
}

/// The pattern that the text `s` denotes, if it is well formed.
pub open spec fn parse_pattern(s: Seq<u8>) -> Option<Pattern> {
    parse_from(s, 0, seq![])
}

pub open spec fn prepend(out: Pattern, rest: Option<Pattern>) -> Option<Pattern> {
    match rest {
        Some(r) => Some(out + r),
        None => None,
    }
}

/// The pattern `p` occurs in `d` at offset `i`.
pub open spec fn matches_at(d: Seq<u8>, p: Pattern, i: int) -> bool {
    &&& 0 <= i
    &&& i + p.len() <= d.len()
    &&& forall|k: int| 0 <= k < p.len() ==> (#[trigger] p[k] matches Some(b) ==> d[i + k] == b)
}

/// `i` is the first offset at which `p` occurs in `d`.
pub open spec fn is_first_match(d: Seq<u8>, p: Pattern, i: int) -> bool {
    matches_at(d, p, i) && forall|j: int| 0 <= j < i ==> !matches_at(d, p, j)
}

/// The outcome of a search for the first occurrence.
pub open spec fn first_match_result(d: Seq<u8>, p: Pattern, r: Option<usize>) -> bool {
    match r {
        Some(i) => is_first_match(d, p, i as int),
        None => forall|j: int| !matches_at(d, p, j),
    }
}

fn hex_digit_exec(c: u8) -> (r: Option<u8>)
    ensures
        r == hex_digit(c),
{
    if 0x30 <= c && c <= 0x39 {
        Some(c - 0x30)
    } else if 0x61 <= c && c <= 0x66 {
        Some(c - 0x61 + 10)
    } else if 0x41 <= c && c <= 0x46 {
        Some(c - 0x41 + 10)
    } else {
        None
    }
}

fn token_value_exec(t: &Vec<u8>) -> (r: Option<Option<u8>>)
    ensures
        r == token_value(t@),
{
    if t.len() == 1 && t[0] == 0x3F {
        assert(t@ =~= seq![0x3Fu8]);
        return Some(None);
    }
    if t.len() == 2 && t[0] == 0x3F && t[1] == 0x3F {
        assert(t@ =~= seq![0x3Fu8, 0x3Fu8]);
        return Some(None);
    }
    assert(t@ != seq![0x3Fu8]) by {
        if t@ == seq![0x3Fu8] {
            assert(t@.len() == 1 && t@[0] == 0x3F);
        }
    }
    assert(t@ != seq![0x3Fu8, 0x3Fu8]) by {
        if t@ == seq![0x3Fu8, 0x3Fu8] {
            assert(t@.len() == 2 && t@[0] == 0x3F && t@[1] == 0x3F);
        }
    }
    if t.len() != 2 {
        return None;
    }
    match (hex_digit_exec(t[0]), hex_digit_exec(t[1])) {
        (Some(hi), Some(lo)) => Some(Some(hi * 16 + lo)),
        _ => None,
    }
}

/// Compiles the text form of a signature; `None` where a token is malformed.
pub fn parse_signature(text: &str) -> (r: Option<Vec<Option<u8>>>)
    ensures
        match parse_pattern(text.spec_bytes()) {
            Some(p) => r matches Some(v) && v@ == p,
            None => r is None,
        },
{
    let s = text.as_bytes();
    let mut out: Vec<Option<u8>> = Vec::new();
    let mut tok: Vec<u8> = Vec::new();
    let mut i: usize = 0;
    while i < s.len()
        invariant
            s@ == text.spec_bytes(),
            i <= s@.len(),
            parse_pattern(s@) == prepend(out@, parse_from(s@, i as int, tok@)),
        decreases s@.len() - i,
    {
        let c = s[i];
        if c == 0x20 || c == 0x09 || c == 0x0A || c == 0x0D {
            if tok.len() > 0 {
                match token_value_exec(&tok) {
                    Some(v) => {
                        proof {
                            let rest = parse_from(s@, i + 1, seq![]);
                            if let Some(r) = rest {
                                assert(out@ + (seq![v] + r) =~= out@.push(v) + r);
                            }
                        }
                        out.push(v);
                        tok = Vec::new();
                    },
                    None => {
                        return None;
                    },
                }
            }
        } else {
            tok.push(c);
        }
        i = i + 1;
    }
    if tok.len() > 0 {
        match token_value_exec(&tok) {
            Some(v) => {
                assert(out@ + seq![v] =~= out@.push(v));
                out.push(v);
            },
            None => {
                return None;
            },
        }
    } else {
        assert(out@ + seq![] =~= out@);
    }
    Some(out)
}

/// Whether `p` occurs in `d` at offset `i`.
pub fn matches_at_exec(d: &[u8], p: &[Option<u8>], i: usize) -> (r: bool)
    ensures
        r == matches_at(d@, p@, i as int),
{
    if i > d.len() || p.len() > d.len() - i {
        return false;
    }
    let mut k: usize = 0;
    while k < p.len()
        invariant
            i + p@.len() <= d.len(),
            k <= p@.len(),
            forall|m: int| 0 <= m < k ==> (#[trigger] p@[m] matches Some(b) ==> d@[i + m] == b),
        decreases p@.len() - k,
    {
        if let Some(b) = p[k] {
            if d[i + k] != b {
                return false;
            }
        }
        k = k + 1;
    }
    true
}

/// The first offset at which `p` occurs in `d`.
pub fn find_first(d: &[u8], p: &[Option<u8>]) -> (r: Option<usize>)
    ensures
        first_match_result(d@, p@, r),
{
    let mut i: usize = 0;
    while i < d.len()
        invariant
            i <= d@.len(),
            forall|j: int| 0 <= j < i ==> !matches_at(d@, p@, j),
        decreases d@.len() - i,
    {
        if matches_at_exec(d, p, i) {
            return Some(i);
        }
        i = i + 1;
    }
    if matches_at_exec(d, p, i) {
        return Some(i);
    }
    assert forall|j: int| !matches_at(d@, p@, j) by {
        if j > i {
        }
    }
    None
}

/// Every offset at which `p` occurs in `d`, overlapping ones included, in
/// increasing order.
pub fn find_all(d: &[u8], p: &[Option<u8>]) -> (r: Vec<usize>)
    ensures
        forall|k: int| 0 <= k < r@.len() ==> matches_at(d@, p@, #[trigger] r@[k] as int),
        forall|k1: int, k2: int| 0 <= k1 < k2 < r@.len() ==> r@[k1] < r@[k2],
        forall|j: int| matches_at(d@, p@, j) ==> exists|k: int| 0 <= k < r@.len() && r@[k] == j,
{
    let mut out: Vec<usize> = Vec::new();
    let mut i: usize = 0;
    loop
        invariant_except_break
            i <= d@.len(),
            forall|k: int| 0 <= k < out@.len() ==> #[trigger] out@[k] < i,
            forall|j: int| 0 <= j < i && matches_at(d@, p@, j) ==> exists|k: int|
                0 <= k < out@.len() && out@[k] == j,
        invariant
            forall|k: int| 0 <= k < out@.len() ==> matches_at(d@, p@, #[trigger] out@[k] as int),
            forall|k1: int, k2: int| 0 <= k1 < k2 < out@.len() ==> out@[k1] < out@[k2],
        ensures
            forall|j: int| 0 <= j <= d@.len() && matches_at(d@, p@, j) ==> exists|k: int|
                0 <= k < out@.len() && out@[k] == j,
        decreases d@.len() - i,
    {
        let ghost before = out@;
        let found = matches_at_exec(d, p, i);
        if found {
            out.push(i);
        }
        proof {
            assert forall|j: int| 0 <= j < i + 1 && matches_at(d@, p@, j) implies exists|k: int|
                0 <= k < out@.len() && out@[k] == j by {
                if j == i {
                    assert(out@[out@.len() - 1] == j);
                } else {
                    let k = choose|k: int| 0 <= k < before.len() && before[k] == j;
                    assert(out@[k] == j);
                }
            }
        }
        if i == d.len() {
            break;
        }
        i = i + 1;
    }
    proof {
        assert forall|j: int| matches_at(d@, p@, j) implies exists|k: int|
            0 <= k < out@.len() && out@[k] == j by {
            assert(j <= d@.len());
        }
    }
    out
}

/// For a signature without wildcards, a match at `i` is exactly an equal
/// run of bytes at `i`.
pub proof fn lemma_literal_match(d: Seq<u8>, bytes: Seq<u8>, i: int)
    ensures
        matches_at(d, bytes.map_values(|b: u8| Some(b)), i) <==> (0 <= i && i + bytes.len()
            <= d.len() && d.subrange(i, i + bytes.len()) == bytes),
{
    let p = bytes.map_values(|b: u8| Some(b));
    if matches_at(d, p, i) {
        assert forall|k: int| 0 <= k < bytes.len() implies d.subrange(i, i + bytes.len())[k]
            == bytes[k] by {
            assert(p[k] == Some(bytes[k]));
        }
        assert(d.subrange(i, i + bytes.len()) =~= bytes);
    }
    if 0 <= i && i + bytes.len() <= d.len() && d.subrange(i, i + bytes.len()) == bytes {
        assert forall|k: int| 0 <= k < p.len() implies (#[trigger] p[k] matches Some(b) ==> d[i + k]
            == b) by {
            assert(d.subrange(i, i + bytes.len())[k] == d[i + k]);
        }
    }
}

/// Wildcard positions match whatever byte lies under them: two buffers that
/// agree on the literal positions of `p` at `i` either both match or both
/// do not.
pub proof fn lemma_wildcards_match_any(d1: Seq<u8>, d2: Seq<u8>, p: Pattern, i: int)
    requires
        d1.len() == d2.len(),
        forall|k: int| 0 <= k < p.len() && #[trigger] p[k] is Some ==> d1[i + k] == d2[i + k],
    ensures
        matches_at(d1, p, i) == matches_at(d2, p, i),
{
    if matches_at(d1, p, i) {
        assert forall|k: int| 0 <= k < p.len() implies (#[trigger] p[k] matches Some(b) ==> d2[i + k]
            == b) by {
            if p[k] is Some {
                assert(d1[i + k] == d2[i + k]);
            }
        }
    }
    if matches_at(d2, p, i) {
        assert forall|k: int| 0 <= k < p.len() implies (#[trigger] p[k] matches Some(b) ==> d1[i + k]
            == b) by {
            if p[k] is Some {
                assert(d1[i + k] == d2[i + k]);
            }
        }
    }
}

/// A search for the first occurrence admits one outcome only: repeating it
/// on the same buffer and pattern gives the same offset.
pub proof fn lemma_first_match_deterministic(d: Seq<u8>, p: Pattern, a: Option<usize>, b: Option<usize>)
    requires
        first_match_result(d, p, a),
        first_match_result(d, p, b),
    ensures
        a == b,
{
    match (a, b) {
        (Some(x), Some(y)) => {
            if x < y {
                assert(!matches_at(d, p, x as int));
            } else if y < x {
                assert(!matches_at(d, p, y as int));
            }
        },
        (Some(x), None) => {
            assert(!matches_at(d, p, x as int));
        },
        (None, Some(y)) => {
            assert(!matches_at(d, p, y as int));
        },
        (None, None) => {},
    }
}

} // verus!
