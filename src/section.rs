//! One loaded section: signature search, function recovery and the calls
//! that target a function.

use vstd::prelude::*;
use vstd::string::StringSliceAdditionalSpecFns;

use crate::call::Call;
use crate::function::{func_end, func_start, Function};
use crate::header::{first_named, le32, read_u32, section_in_image, ExeReader, ScanError, SectionHeader};
use crate::pointer::Pointer;
use crate::signature::{find_first, first_match_result, is_first_match, lemma_first_match_deterministic, matches_at, parse_pattern, parse_signature};

verus! {

/// Opcode of a near call with a 32-bit relative displacement.
pub const NEAR_CALL: u8 = 0xE8;
/// Length of a near call instruction.
pub const NEAR_CALL_LEN: usize = 5;

/// The bytes of one section, with its header.
pub struct SectionScanner {
    pub name: String,
    pub header: SectionHeader,
    pub data: Vec<u8>,
}

/// The 32-bit little-endian signed value at `o`.
pub open spec fn rel32(d: Seq<u8>, o: int) -> int {
    if le32(d, o) >= 0x8000_0000 {
        le32(d, o) - 0x1_0000_0000
    } else {
        le32(d, o)
    }
}

/// At `c` stands a near call whose target is offset `f`.
pub open spec fn calls_target(d: Seq<u8>, c: int, f: int) -> bool {
    &&& 0 <= c
    &&& c + NEAR_CALL_LEN <= d.len()
    &&& d[c] == NEAR_CALL
    &&& c + NEAR_CALL_LEN + rel32(d, c + 1) == f
}

/// The offsets of the calls to `f` that a byte-wise scan from `c` reports:
/// after a call it skips the call's five bytes, otherwise one byte.
pub open spec fn xref_scan(d: Seq<u8>, f: int, c: int) -> Seq<int>
    decreases d.len() - c,
{
    if c >= d.len() || c < 0 {
        seq![]
    } else if calls_target(d, c, f) {
        seq![c] + xref_scan(d, f, c + NEAR_CALL_LEN)
    } else {
        xref_scan(d, f, c + 1)
    }
}

impl SectionScanner {
    /// The data is the whole raw data of the section.
    pub open spec fn wf(&self) -> bool {
        self.data@.len() == self.header.raw_data_size
    }

    /// A pointer into this section at `value`.
    pub open spec fn pointer_at(&self, value: int, p: Pointer) -> bool {
        &&& p.value == value
        &&& p.raw_offset == self.header.raw_data_ptr
        &&& p.virtual_offset == self.header.virtual_addr
    }

    /// `f` is the function of this section that holds `anchor`.
    pub open spec fn function_at(&self, anchor: int, f: Function) -> bool {
        &&& self.pointer_at(func_start(self.data@, anchor), f.pointer)
        &&& f.bytes@ == self.data@.subrange(func_start(self.data@, anchor), func_end(self.data@, anchor))
    }

    /// `r` is what a search for the signature `text` reports.
    pub open spec fn sig_result(&self, text: Seq<u8>, r: Option<Pointer>) -> bool {
        match parse_pattern(text) {
            None => r is None,
            Some(p) => match r {
                None => forall|j: int| !matches_at(self.data@, p, j),
                Some(ptr) => is_first_match(self.data@, p, ptr.value as int) && self.pointer_at(
                    ptr.value as int,
                    ptr,
                ),
            },
        }
    }

    /// `c` is a call at `offset` in this section, from the function holding it.
    pub open spec fn call_at(&self, offset: int, c: Call) -> bool {
        &&& self.pointer_at(offset, c.pointer)
        &&& self.function_at(offset, c.calling_func)
        &&& c.call_pos == offset - func_start(self.data@, offset)
    }

    /// Loads the section named `name` from an image.
    pub fn new(name: &str, reader: &ExeReader) -> (r: Result<Self, ScanError>)
        ensures
            match first_named(reader.header.sections@, name@) {
                None => r == Err::<Self, ScanError>(ScanError::Format),
                Some(i) => {
                    let h = reader.header.sections@[i];
                    if section_in_image(h, reader.data@.len() as int) {
                        r matches Ok(s) && s.wf() && s.header == h && s.name@ == name@ && s.data@
                            == reader.data@.subrange(
                            h.raw_data_ptr as int,
                            h.raw_data_ptr + h.raw_data_size,
                        )
                    } else {
                        r == Err::<Self, ScanError>(ScanError::Io)
                    }
                },
            },
    {
        let header = match reader.get_section_header(name) {
            Some(h) => h.copy(),
            None => {
                return Err(ScanError::Format);
            },
        };
        let data = match reader.read_section_data(&header) {
            Ok(v) => v,
            Err(e) => {
                return Err(e);
            },
        };
        Ok(SectionScanner { name: name.to_owned(), header, data })
    }

    /// The function that holds `pointer`; `needle_offset` receives the
    /// pointer's offset inside it.
    pub fn get_func_at(&self, pointer: Pointer, needle_offset: &mut usize) -> (r: Function)
        requires
            pointer.value < self.data@.len(),
        ensures
            self.function_at(pointer.value as int, r),
            *final(needle_offset) == pointer.value - func_start(self.data@, pointer.value as int),
    {
        let (start, _) = Function::bounds(self.data.as_slice(), pointer.value);
        let bytes = Function::get_bytes(self.data.as_slice(), pointer.value, needle_offset);
        Function::new(Pointer::new(start, &self.header), bytes)
    }

    /// The first place where the signature `sig_str` occurs.
    pub fn find_sig(&self, sig_str: &str) -> (r: Option<Pointer>)
        ensures
            self.sig_result(sig_str.spec_bytes(), r),
    {
        let sig = match parse_signature(sig_str) {
            Some(v) => v,
            None => {
                return None;
            },
        };
        match find_first(self.data.as_slice(), sig.as_slice()) {
            Some(offset) => Some(Pointer::new(offset, &self.header)),
            None => None,
        }
    }

    /// The function that holds the first occurrence of `sig_str`.
    pub fn find_func_sig(&self, sig_str: &str) -> (r: Option<Function>)
        ensures
            exists|p: Option<Pointer>|
                self.sig_result(sig_str.spec_bytes(), p) && match p {
                    None => r is None,
                    Some(ptr) => if ptr.value < self.data@.len() {
                        r matches Some(f) && self.function_at(ptr.value as int, f)
                    } else {
                        r is None
                    },
                },
    {
        let found = self.find_sig(sig_str);
        match found {
            Some(pointer) => {
                if pointer.value >= self.data.len() {
                    // an empty signature in an empty section
                    return None;
                }
                let mut needle: usize = 0;
                let f = self.get_func_at(pointer, &mut needle);
                Some(f)
            },
            None => None,
        }
    }

    /// Every call in this section whose target is the start of `func`.
    pub fn find_func_calls(&self, func: &Function) -> (r: Vec<Call>)
        ensures
            r@.len() == xref_scan(self.data@, func.pointer.value as int, 0).len(),
            forall|k: int|
                0 <= k < r@.len() ==> self.call_at(
                    xref_scan(self.data@, func.pointer.value as int, 0)[k],
                    #[trigger] r@[k],
                ),
    {
        let d = self.data.as_slice();
        let target = func.pointer.value;
        let ghost f = target as int;
        let mut results: Vec<Call> = Vec::new();
        let ghost mut offs: Seq<int> = seq![];
        let mut c: usize = 0;
        while c < d.len()
            invariant
                d@ == self.data@,
                f == target,
                target == func.pointer.value,
                c <= d@.len(),
                offs + xref_scan(d@, f, c as int) == xref_scan(d@, f, 0),
                results@.len() == offs.len(),
                forall|k: int| 0 <= k < results@.len() ==> self.call_at(offs[k], #[trigger] results@[k]),
            decreases d@.len() - c,
        {
            let mut advance: usize = 1;
            if d[c] == NEAR_CALL && d.len() >= NEAR_CALL_LEN && c <= d.len() - NEAR_CALL_LEN {
                let raw = read_u32(d, c + 1) as i128;
                let rel: i128 = if raw >= 0x8000_0000 {
                    raw - 0x1_0000_0000
                } else {
                    raw
                };
                if c as i128 + NEAR_CALL_LEN as i128 + rel == target as i128 {
                    let call = Call::from_xref(self, Pointer::new(c, &self.header));
                    proof {
                        assert(calls_target(d@, c as int, f));
                        assert(offs.push(c as int) + xref_scan(d@, f, c + NEAR_CALL_LEN) =~= offs
                            + xref_scan(d@, f, c as int));
                    }
                    results.push(call);
                    proof {
                        offs = offs.push(c as int);
                    }
                    advance = NEAR_CALL_LEN;
                }
            }
            if advance == 1 {
                assert(!calls_target(d@, c as int, f));
            }
            c = c + advance;
        }
        assert(offs + xref_scan(d@, f, c as int) =~= offs);
        results
    }
}

/// Where no offset of `d` holds a call to `f`, the scan reports none.
pub proof fn lemma_no_call_no_xref(d: Seq<u8>, f: int, c: int)
    requires
        forall|j: int| !calls_target(d, j, f),
    ensures
        xref_scan(d, f, c) == Seq::<int>::empty(),
    decreases d.len() - c,
{
    if c < d.len() && c >= 0 {
        lemma_no_call_no_xref(d, f, c + 1);
    }
}

/// Where a single offset `c` of `d` holds a call to `f`, the scan reports
/// exactly that offset.
pub proof fn lemma_single_call_single_xref(d: Seq<u8>, f: int, c: int)
    requires
        calls_target(d, c, f),
        forall|j: int| j != c ==> !calls_target(d, j, f),
    ensures
        xref_scan(d, f, 0) == seq![c],
{
    lemma_scan_reaches(d, f, c, 0);
}

proof fn lemma_scan_reaches(d: Seq<u8>, f: int, c: int, i: int)
    requires
        calls_target(d, c, f),
        forall|j: int| j != c ==> !calls_target(d, j, f),
        0 <= i <= c,
    ensures
        xref_scan(d, f, i) == seq![c],
    decreases c - i,
{
    if i < c {
        lemma_scan_reaches(d, f, c, i + 1);
    } else {
        lemma_scan_past(d, f, c, c + NEAR_CALL_LEN);
        assert(seq![c] + Seq::<int>::empty() =~= seq![c]);
    }
}

proof fn lemma_scan_past(d: Seq<u8>, f: int, c: int, i: int)
    requires
        forall|j: int| j != c ==> !calls_target(d, j, f),
        i > c,
    ensures
        xref_scan(d, f, i) == Seq::<int>::empty(),
    decreases d.len() - i,
{
    if i < d.len() {
        lemma_scan_past(d, f, c, i + 1);
    }
}

/// Repeated searches of one section for one signature report the same
/// pointer.
pub proof fn lemma_sig_search_idempotent(s: SectionScanner, text: Seq<u8>, a: Option<Pointer>, b: Option<Pointer>)
    requires
        s.sig_result(text, a),
        s.sig_result(text, b),
    ensures
        a == b,
{
    if let Some(p) = parse_pattern(text) {
        let oa = match a {
            Some(x) => Some(x.value),
            None => None,
        };
        let ob = match b {
            Some(x) => Some(x.value),
            None => None,
        };
        assert(first_match_result(s.data@, p, oa));
        assert(first_match_result(s.data@, p, ob));
        lemma_first_match_deterministic(s.data@, p, oa, ob);
    }
}

} // verus!
