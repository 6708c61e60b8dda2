//! Recovery of a function's byte range from any address inside it, by the
//! padding and return bytes that surround compiled routines.

use vstd::prelude::*;

use crate::pointer::Pointer;

verus! {

/// INT3, the byte that pads the gaps between functions.
pub const PADDING: u8 = 0xCC;
/// RET, the last byte of the function before.
pub const RETURN: u8 = 0xC3;

/// A function can begin at `s`: it is the buffer's first byte, or the byte
/// before it is padding or a return.
pub open spec fn is_start(d: Seq<u8>, s: int) -> bool {
    s <= 0 || d[s - 1] == PADDING || d[s - 1] == RETURN
}

/// A function can end (exclusive) at `e`: the byte after it is padding, or
/// lies beyond the buffer.
pub open spec fn is_end(d: Seq<u8>, e: int) -> bool {
    e + 1 >= d.len() || d[e + 1] == PADDING
}

/// The nearest possible start at or before `a`.
pub open spec fn func_start(d: Seq<u8>, a: int) -> int
    decreases a,
{
    if is_start(d, a) {
        a
    } else {
        func_start(d, a - 1)
    }
}

/// The nearest possible end at or after `a`.
pub open spec fn func_end(d: Seq<u8>, a: int) -> int
    decreases d.len() - a,
{
    if a < 0 || is_end(d, a) {
        a
    } else {
        func_end(d, a + 1)
    }
}

/// A function: where it begins in its section, and a copy of its bytes.
pub struct Function {
    pub pointer: Pointer,
    pub bytes: Vec<u8>,
}

/// No byte of `s` is padding, and only its last byte may be a return.
pub open spec fn plain_body(s: Seq<u8>) -> bool {
    &&& s.len() > 0
    &&& forall|k: int| 0 <= k < s.len() ==> s[k] != PADDING
    &&& forall|k: int| 0 <= k < s.len() - 1 ==> s[k] != RETURN
}

/// `body` laid out between padding, with a return byte after it.
pub open spec fn padded(body: Seq<u8>) -> Seq<u8> {
    seq![PADDING, PADDING] + body + seq![RETURN, PADDING, PADDING]
}

impl Function {
    pub fn new(pointer: Pointer, bytes: Vec<u8>) -> (r: Self)
        ensures
            r.pointer == pointer,
            r.bytes == bytes,
    {
        Function { pointer, bytes }
    }

    /// The range `[start, end)` of the function that holds `anchor`.
    pub fn bounds(data: &[u8], anchor: usize) -> (r: (usize, usize))
        requires
            anchor < data@.len(),
        ensures
            r.0 == func_start(data@, anchor as int),
            r.1 == func_end(data@, anchor as int),
            r.0 <= anchor <= r.1 < data@.len(),
    {
        let mut start: usize = anchor;
        while start > 0 && data[start - 1] != PADDING && data[start - 1] != RETURN
            invariant
                start <= anchor < data@.len(),
                func_start(data@, anchor as int) == func_start(data@, start as int),
            decreases start,
        {
            start = start - 1;
        }
        let mut end: usize = anchor;
        while end < data.len() - 1 && data[end + 1] != PADDING
            invariant
                anchor <= end < data@.len(),
                func_end(data@, anchor as int) == func_end(data@, end as int),
            decreases data@.len() - end,
        {
            end = end + 1;
        }
        (start, end)
    }

    /// A copy of the function that holds `anchor`; `needle_offset` receives
    /// the anchor's offset inside the copy.
    pub fn get_bytes(data: &[u8], anchor: usize, needle_offset: &mut usize) -> (r: Vec<u8>)
        requires
            anchor < data@.len(),
        ensures
            r@ == data@.subrange(func_start(data@, anchor as int), func_end(data@, anchor as int)),
            *final(needle_offset) == anchor - func_start(data@, anchor as int),
    {
        let (start, end) = Function::bounds(data, anchor);
        *needle_offset = anchor - start;
        let mut v: Vec<u8> = Vec::new();
        let mut k: usize = start;
        while k < end
            invariant
                start <= k <= end < data@.len(),
                v@ == data@.subrange(start as int, k as int),
            decreases end - k,
        {
            v.push(data[k]);
            k = k + 1;
            assert(v@ =~= data@.subrange(start as int, k as int));
        }
        v
    }
}

proof fn lemma_start_from(d: Seq<u8>, lo: int, a: int)
    requires
        lo <= a,
        is_start(d, lo),
        forall|k: int| lo < k <= a ==> !is_start(d, k),
    ensures
        func_start(d, a) == lo,
    decreases a - lo,
{
    if a > lo {
        lemma_start_from(d, lo, a - 1);
    }
}

proof fn lemma_end_from(d: Seq<u8>, hi: int, a: int)
    requires
        0 <= a <= hi,
        is_end(d, hi),
        forall|k: int| a <= k < hi ==> !is_end(d, k),
    ensures
        func_end(d, a) == hi,
    decreases hi - a,
{
    if a < hi {
        lemma_end_from(d, hi, a + 1);
    }
}

/// A body without padding, whose only return byte is its last, laid out as
/// `CC CC <body> C3 CC CC`: from any anchor inside the body the recovered
/// range is exactly the body.
pub proof fn lemma_padded_body_recovered(body: Seq<u8>, j: int)
    requires
        plain_body(body),
        0 <= j < body.len(),
    ensures
        func_start(padded(body), j + 2) == 2,
        func_end(padded(body), j + 2) == body.len() + 2,
{
    let d = padded(body);
    let n = body.len() as int;
    assert(d.len() == n + 5);
    assert forall|k: int| 0 <= k < n implies d[k + 2] == body[k] by {}
    assert(d[1] == PADDING);
    assert(d[n + 2] == RETURN);
    assert(d[n + 3] == PADDING);
    assert forall|k: int| 2 < k <= j + 2 implies !is_start(d, k) by {
        assert(d[k - 1] == body[k - 3]);
    }
    lemma_start_from(d, 2, j + 2);
    assert forall|k: int| j + 2 <= k < n + 2 implies !is_end(d, k) by {
        if k + 1 < n + 2 {
            assert(d[k + 1] == body[k - 1]);
        }
    }
    lemma_end_from(d, n + 2, j + 2);
}

} // verus!
