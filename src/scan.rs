//! The whole scan of an image: load a section, locate the function that a
//! signature lies in, and find the calls to it.

use vstd::prelude::*;
use vstd::string::StringSliceAdditionalSpecFns;

use crate::call::Call;
use crate::function::{func_start, Function};
use crate::header::{
    ascii_chars, first_named_from, header_in_range, header_read, le32, name_field, names_ascii,
    nul_truncated, section_count, entry_offset, section_in_image, ExeHeader, ExeReader, ScanError,
};
use crate::path::GameDirectory;
use crate::pointer::Pointer;
use crate::section::{xref_scan, SectionScanner};
use crate::signature::{is_first_match, parse_pattern};

verus! {

/// What a successful scan found.
pub struct ScanReport {
    /// The preferred load address of the image.
    pub image_base: u64,
    /// Where the signature occurs.
    pub signature: Pointer,
    /// The function that holds it.
    pub function: Function,
    /// The calls to that function, in increasing offset order.
    pub calls: Vec<Call>,
}

/// An opened executable, with the install directory it was found in.
pub struct ExeScanner {
    pub game_dir: GameDirectory,
    pub reader: ExeReader,
}

impl ExeScanner {
    /// Parses the image `image` of the executable found under `game_dir`.
    pub fn new(game_dir: GameDirectory, image: Vec<u8>) -> (r: Result<Self, ScanError>)
        ensures
            match r {
                Ok(s) => header_in_range(image@) && names_ascii(image@) && header_read(image@, s.reader.header)
                    && s.reader.data@ == image@ && s.game_dir == game_dir,
                Err(e) => e == ScanError::Format && !header_in_range(image@) || e == ScanError::Encoding
                    && header_in_range(image@) && !names_ascii(image@),
            },
    {
        match ExeReader::open(image) {
            Ok(reader) => Ok(ExeScanner { game_dir, reader }),
            Err(e) => Err(e),
        }
    }

    pub fn get_header(&self) -> (r: &ExeHeader)
        ensures
            *r == self.reader.header,
    {
        &self.reader.header
    }

    /// Loads the section named `name`.
    pub fn section(self, name: &str) -> (r: Result<SectionScanner, ScanError>)
        ensures
            match first_named_from(self.reader.header.sections@, name@, 0) {
                None => r == Err::<SectionScanner, ScanError>(ScanError::Format),
                Some(i) => {
                    let h = self.reader.header.sections@[i];
                    if section_in_image(h, self.reader.data@.len() as int) {
                        r matches Ok(s) && s.wf() && s.header == h && s.name@ == name@ && s.data@
                            == self.reader.data@.subrange(
                            h.raw_data_ptr as int,
                            h.raw_data_ptr + h.raw_data_size,
                        )
                    } else {
                        r == Err::<SectionScanner, ScanError>(ScanError::Io)
                    }
                },
            },
    {
        SectionScanner::new(name, &self.reader)
    }
}

/// The name of the `i`-th section of `d`.
#[verifier::opaque]
pub open spec fn section_name(d: Seq<u8>, i: int) -> Seq<char> {
    ascii_chars(nul_truncated(name_field(d, i)))
}

/// The first section of `d` named `name`, looking from `k` on.
pub open spec fn section_index_from(d: Seq<u8>, name: Seq<char>, k: int) -> Option<int>
    decreases section_count(d) - k,
{
    if k < 0 || k >= section_count(d) {
        None
    } else if section_name(d, k) == name {
        Some(k)
    } else {
        section_index_from(d, name, k + 1)
    }
}

/// The first section of `d` named `name`.
pub open spec fn section_index(d: Seq<u8>, name: Seq<char>) -> Option<int> {
    section_index_from(d, name, 0)
}

pub open spec fn data_start(d: Seq<u8>, i: int) -> int {
    le32(d, entry_offset(d, i) + 0x14)
}

pub open spec fn section_vaddr(d: Seq<u8>, i: int) -> int {
    le32(d, entry_offset(d, i) + 0x0C)
}

pub open spec fn raw_size(d: Seq<u8>, i: int) -> int {
    le32(d, entry_offset(d, i) + 0x10)
}

/// The raw data of the `i`-th section of `d`.
pub open spec fn section_bytes(d: Seq<u8>, i: int) -> Seq<u8> {
    d.subrange(data_start(d, i), data_start(d, i) + raw_size(d, i))
}

/// `rep` is the scan of the section data `data` for the pattern found first
/// at `a`.
pub open spec fn report_of(data: Seq<u8>, a: int, rep: ScanReport) -> bool {
    &&& rep.signature.value == a
    &&& rep.function.pointer.value == func_start(data, a)
    &&& rep.function.bytes@ == data.subrange(func_start(data, a), crate::function::func_end(data, a))
    &&& rep.calls@.len() == xref_scan(data, func_start(data, a), 0).len()
    &&& forall|k: int|
        0 <= k < rep.calls@.len() ==> (#[trigger] rep.calls@[k]).pointer.value == xref_scan(
            data,
            func_start(data, a),
            0,
        )[k]
}

/// The outcome of scanning the image `d`, in the section named `name`, for
/// the signature text `sig`.
pub open spec fn scan_outcome(d: Seq<u8>, name: Seq<char>, sig: Seq<u8>, r: Result<ScanReport, ScanError>) -> bool {
    if !header_in_range(d) {
        r == Err::<ScanReport, ScanError>(ScanError::Format)
    } else if !names_ascii(d) {
        r == Err::<ScanReport, ScanError>(ScanError::Encoding)
    } else {
        match section_index(d, name) {
            None => r == Err::<ScanReport, ScanError>(ScanError::Format),
            Some(i) => if data_start(d, i) + raw_size(d, i) > d.len() {
                r == Err::<ScanReport, ScanError>(ScanError::Io)
            } else {
                let data = section_bytes(d, i);
                match parse_pattern(sig) {
                    None => r == Err::<ScanReport, ScanError>(ScanError::NotFound),
                    Some(p) => if exists|a: int| is_first_match(data, p, a) && a < data.len() {
                        r matches Ok(rep) && is_first_match(data, p, rep.signature.value as int)
                            && report_of(data, rep.signature.value as int, rep)
                            && rep.image_base == crate::header::image_base_of(d)
                            && rep.signature.raw_offset == data_start(d, i)
                            && rep.signature.virtual_offset == section_vaddr(d, i)
                    } else {
                        r == Err::<ScanReport, ScanError>(ScanError::NotFound)
                    },
                }
            },
        }
    }
}

proof fn lemma_index_agrees(d: Seq<u8>, reader: ExeReader, name: Seq<char>, k: int)
    requires
        header_read(d, reader.header),
        0 <= k,
    ensures
        first_named_from(reader.header.sections@, name, k) == section_index_from(d, name, k),
    decreases section_count(d) - k,
{
    let s = reader.header.sections@;
    if k < s.len() {
        assert(crate::header::section_read(d, k, s[k]));
        reveal(section_name);
        lemma_index_agrees(d, reader, name, k + 1);
    }
}

proof fn lemma_index_in_range(d: Seq<u8>, name: Seq<char>, k: int)
    ensures
        section_index_from(d, name, k) matches Some(i) ==> k <= i < section_count(d),
    decreases section_count(d) - k,
{
    if 0 <= k < section_count(d) {
        lemma_index_in_range(d, name, k + 1);
    }
}

/// Scans the image `image`: loads the section `section_name`, finds the
/// first occurrence of `sig`, recovers the function that holds it and the
/// calls to that function.
pub fn scan_image(image: Vec<u8>, section_name: &str, sig: &str) -> (r: Result<ScanReport, ScanError>)
    ensures
        scan_outcome(image@, section_name@, sig.spec_bytes(), r),
{
    let ghost d = image@;
    let reader = match ExeReader::open(image) {
        Ok(reader) => reader,
        Err(e) => {
            return Err(e);
        },
    };
    proof {
        lemma_index_agrees(d, reader, section_name@, 0);
    }
    proof {
        lemma_index_in_range(d, section_name@, 0);
        if let Some(k) = section_index(d, section_name@) {
            assert(crate::header::section_read(d, k, reader.header.sections@[k]));
        }
    }
    let section = match SectionScanner::new(section_name, &reader) {
        Ok(s) => s,
        Err(e) => {
            return Err(e);
        },
    };
    let ghost i = section_index(d, section_name@)->0;
    proof {
        lemma_index_in_range(d, section_name@, 0);
        assert(crate::header::section_read(d, i, reader.header.sections@[i]));
    }
    assert(section.header == reader.header.sections@[i]);
    assert(section.data@ == section_bytes(d, i));
    let signature = match section.find_sig(sig) {
        Some(p) => p,
        None => {
            return Err(ScanError::NotFound);
        },
    };
    if signature.value >= section.data.len() {
        return Err(ScanError::NotFound);
    }
    let mut needle: usize = 0;
    let function = section.get_func_at(signature, &mut needle);
    let calls = section.find_func_calls(&function);
    Ok(ScanReport { image_base: reader.header.image_base, signature, function, calls })
}

} // verus!
