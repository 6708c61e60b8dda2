//! The PE container: DOS stub, PE and optional headers, and the section table,
//! read from the bytes of an executable image.

use vstd::prelude::*;

verus! {

/// The ways a scan can fail.
#[derive(Debug, Clone, Copy, PartialEq, Eq, Structural)]
pub enum ScanError {
    /// The install directory could not be resolved.
    Path,
    /// A read or seek failed, or came up short.
    Io,
    /// A header field is out of range, or a named section is missing.
    Format,
    /// A section name holds a byte outside ASCII.
    Encoding,
    /// The signature does not occur.
    NotFound,
}

/// One entry of the section table.
#[derive(Debug, Clone)]
pub struct SectionHeader {
    pub index: u16,
    pub name: String,
    pub virtual_size: u32,
    pub virtual_addr: u32,
    pub raw_data_size: u32,
    pub raw_data_ptr: u32,
}

/// The parts of the image header that a scan needs.
#[derive(Debug, Clone)]
pub struct ExeHeader {
    pub image_base: u64,
    pub sections: Vec<SectionHeader>,
}

/// An executable image held in memory, with its parsed header.
pub struct ExeReader {
    pub data: Vec<u8>,
    pub header: ExeHeader,
}

/// Offset of the field in the DOS stub that gives the PE header's offset.
pub const PE_POINTER_FIELD: usize = 0x3C;
/// Size of the PE signature plus the COFF file header.
pub const COFF_SIZE: usize = 0x18;
/// Size of one section table entry.
pub const SECTION_ENTRY_SIZE: usize = 0x28;
/// Length of the name field of a section table entry.
pub const SECTION_NAME_LEN: usize = 8;

pub open spec fn le16(d: Seq<u8>, o: int) -> int {
    d[o] + d[o + 1] * 256
}

pub open spec fn le32(d: Seq<u8>, o: int) -> int {
    le16(d, o) + le16(d, o + 2) * 0x1_0000
}

pub open spec fn le64(d: Seq<u8>, o: int) -> int {
    le32(d, o) + le32(d, o + 4) * 0x1_0000_0000
}

/// File offset of the PE signature.
pub open spec fn pe_offset(d: Seq<u8>) -> int {
    le32(d, PE_POINTER_FIELD as int)
}

pub open spec fn section_count(d: Seq<u8>) -> int {
    le16(d, pe_offset(d) + 0x06)
}

pub open spec fn optional_header_size(d: Seq<u8>) -> int {
    le16(d, pe_offset(d) + 0x14)
}

/// The preferred load address, from the optional header.
pub open spec fn image_base_of(d: Seq<u8>) -> int {
    le64(d, pe_offset(d) + COFF_SIZE + 0x18)
}

/// File offset of the section table.
pub open spec fn section_table(d: Seq<u8>) -> int {
    pe_offset(d) + COFF_SIZE + optional_header_size(d)
}

pub open spec fn entry_offset(d: Seq<u8>, i: int) -> int {
    section_table(d) + i * SECTION_ENTRY_SIZE
}

/// Every field that the header is read from lies inside the image.
pub open spec fn header_in_range(d: Seq<u8>) -> bool {
    &&& d.len() >= PE_POINTER_FIELD + 4
    &&& pe_offset(d) + COFF_SIZE + 0x20 <= d.len()
    &&& section_table(d) + section_count(d) * SECTION_ENTRY_SIZE <= d.len()
}

/// Length of `s` up to its first NUL byte, looking from position `k` on.
pub open spec fn nul_len_from(s: Seq<u8>, k: int) -> int
    decreases s.len() - k,
{
    if k >= s.len() || k < 0 || s[k] == 0 {
        k
    } else {
        nul_len_from(s, k + 1)
    }
}

/// The bytes of `s` before its first NUL.
pub open spec fn nul_truncated(s: Seq<u8>) -> Seq<u8> {
    s.take(nul_len_from(s, 0))
}

pub open spec fn all_ascii(s: Seq<u8>) -> bool {
    forall|k: int| 0 <= k < s.len() ==> s[k] < 128
}

pub open spec fn ascii_chars(s: Seq<u8>) -> Seq<char> {
    s.map_values(|b: u8| b as char)
}

/// The raw name field of the `i`-th section table entry.
pub open spec fn name_field(d: Seq<u8>, i: int) -> Seq<u8> {
    d.subrange(entry_offset(d, i), entry_offset(d, i) + SECTION_NAME_LEN)
}

/// The `i`-th section table entry holds what `h` holds.
pub open spec fn section_read(d: Seq<u8>, i: int, h: SectionHeader) -> bool {
    let o = entry_offset(d, i);
    &&& h.index == i
    &&& h.name@ == ascii_chars(nul_truncated(name_field(d, i)))
    &&& h.virtual_size == le32(d, o + 0x08)
    &&& h.virtual_addr == le32(d, o + 0x0C)
    &&& h.raw_data_size == le32(d, o + 0x10)
    &&& h.raw_data_ptr == le32(d, o + 0x14)
}

/// Every section name of the table is ASCII.
pub open spec fn names_ascii(d: Seq<u8>) -> bool {
    forall|i: int| 0 <= i < section_count(d) ==> all_ascii(nul_truncated(#[trigger] name_field(d, i)))
}

/// `h` is the header that the image `d` describes.
pub open spec fn header_read(d: Seq<u8>, h: ExeHeader) -> bool {
    &&& h.image_base == image_base_of(d)
    &&& h.sections@.len() == section_count(d)
    &&& forall|i: int| 0 <= i < h.sections@.len() ==> section_read(d, i, #[trigger] h.sections@[i])
}

fn read_u16(d: &[u8], o: usize) -> (r: u16)
    requires
        o + 2 <= d.len(),
    ensures
        r == le16(d@, o as int),
{
    d[o] as u16 + d[o + 1] as u16 * 256
}

pub(crate) fn read_u32(d: &[u8], o: usize) -> (r: u32)
    requires
        o + 4 <= d.len(),
    ensures
        r == le32(d@, o as int),
{
    let lo = read_u16(d, o);
    let hi = read_u16(d, o + 2);
    lo as u32 + hi as u32 * 0x1_0000
}

fn read_u64(d: &[u8], o: usize) -> (r: u64)
    requires
        o + 8 <= d.len(),
    ensures
        r == le64(d@, o as int),
{
    let lo = read_u32(d, o);
    let hi = read_u32(d, o + 4);
    lo as u64 + hi as u64 * 0x1_0000_0000
}

/// Relies on std::str::from_utf8: ASCII bytes are valid UTF-8 and decode to
/// one char each.
#[verifier::external_body]
fn ascii_string(b: &[u8]) -> (r: String)
    requires
        all_ascii(b@),
    ensures
        r@ == ascii_chars(b@),
{
    match std::str::from_utf8(b) {
        Ok(s) => s.to_owned(),
        Err(_) => String::new(),
    }
}

/// Reads the NUL-truncated name field at `o`; fails on a byte outside ASCII.
fn read_name(d: &[u8], o: usize) -> (r: Result<String, ScanError>)
    requires
        o + SECTION_NAME_LEN <= d.len(),
    ensures
        ({
            let field = d@.subrange(o as int, o + SECTION_NAME_LEN);
            match r {
                Ok(s) => all_ascii(nul_truncated(field)) && s@ == ascii_chars(nul_truncated(field)),
                Err(e) => !all_ascii(nul_truncated(field)) && e == ScanError::Encoding,
            }
        }),
{
    let ghost field = d@.subrange(o as int, o + SECTION_NAME_LEN);
    let mut bytes: Vec<u8> = Vec::new();
    let mut k: usize = 0;
    let mut ascii = true;
    while k < SECTION_NAME_LEN && d[o + k] != 0
        invariant
            o + SECTION_NAME_LEN <= d.len(),
            field == d@.subrange(o as int, o + SECTION_NAME_LEN),
            k <= SECTION_NAME_LEN,
            nul_len_from(field, 0) == nul_len_from(field, k as int),
            bytes@ == field.take(k as int),
            ascii == all_ascii(bytes@),
        decreases SECTION_NAME_LEN - k,
    {
        let ghost old_bytes = bytes@;
        if d[o + k] >= 128 {
            ascii = false;
        }
        bytes.push(d[o + k]);
        k = k + 1;
        assert(bytes@ =~= field.take(k as int));
        assert(ascii == all_ascii(bytes@)) by {
            if !ascii {
                if all_ascii(bytes@) {
                    assert(bytes@[k - 1] < 128);
                }
            } else {
                assert(all_ascii(bytes@.drop_last()));
                assert(bytes@.drop_last() =~= old_bytes);
            }
        }
    }
    assert(nul_len_from(field, k as int) == k);
    assert(nul_truncated(field) =~= bytes@);
    if ascii {
        Ok(ascii_string(bytes.as_slice()))
    } else {
        Err(ScanError::Encoding)
    }
}

/// Parses the image header: the image base and the section table.
pub fn parse_header(d: &[u8]) -> (r: Result<ExeHeader, ScanError>)
    ensures
        match r {
            Ok(h) => header_in_range(d@) && names_ascii(d@) && header_read(d@, h),
            Err(e) => e == ScanError::Format && !header_in_range(d@) || e == ScanError::Encoding
                && header_in_range(d@) && !names_ascii(d@),
        },
{
    if d.len() < PE_POINTER_FIELD + 4 {
        return Err(ScanError::Format);
    }
    let pe = read_u32(d, PE_POINTER_FIELD) as u64;
    if pe + (COFF_SIZE + 0x20) as u64 > d.len() as u64 {
        return Err(ScanError::Format);
    }
    let pe = pe as usize;
    let count = read_u16(d, pe + 0x06);
    let oh_size = read_u16(d, pe + 0x14) as usize;
    let image_base = read_u64(d, pe + COFF_SIZE + 0x18);
    let table = pe as u64 + COFF_SIZE as u64 + oh_size as u64;
    if table + count as u64 * SECTION_ENTRY_SIZE as u64 > d.len() as u64 {
        return Err(ScanError::Format);
    }
    let table = table as usize;
    let mut sections: Vec<SectionHeader> = Vec::new();
    let mut i: u16 = 0;
    while i < count
        invariant
            header_in_range(d@),
            count == section_count(d@),
            table == section_table(d@),
            table + count * SECTION_ENTRY_SIZE <= d.len(),
            i <= count,
            sections@.len() == i,
            forall|j: int| 0 <= j < i ==> section_read(d@, j, #[trigger] sections@[j]),
            forall|j: int| 0 <= j < i ==> all_ascii(nul_truncated(#[trigger] name_field(d@, j))),
        decreases count - i,
    {
        let o = table + i as usize * SECTION_ENTRY_SIZE;
        assert(o == entry_offset(d@, i as int));
        let name = match read_name(d, o) {
            Ok(s) => s,
            Err(e) => {
                assert(!all_ascii(nul_truncated(name_field(d@, i as int))));
                return Err(e);
            },
        };
        let section = SectionHeader {
            index: i,
            name,
            virtual_size: read_u32(d, o + 0x08),
            virtual_addr: read_u32(d, o + 0x0C),
            raw_data_size: read_u32(d, o + 0x10),
            raw_data_ptr: read_u32(d, o + 0x14),
        };
        sections.push(section);
        i = i + 1;
    }
    Ok(ExeHeader { image_base, sections })
}

impl SectionHeader {
    /// A field-by-field copy.
    pub fn copy(&self) -> (r: SectionHeader)
        ensures
            r == *self,
    {
        SectionHeader {
            index: self.index,
            name: self.name.clone(),
            virtual_size: self.virtual_size,
            virtual_addr: self.virtual_addr,
            raw_data_size: self.raw_data_size,
            raw_data_ptr: self.raw_data_ptr,
        }
    }
}

/// The position of the first section named `name`, looking from `k` on.
pub open spec fn first_named_from(sections: Seq<SectionHeader>, name: Seq<char>, k: int) -> Option<int>
    decreases sections.len() - k,
{
    if k < 0 || k >= sections.len() {
        None
    } else if sections[k].name@ == name {
        Some(k)
    } else {
        first_named_from(sections, name, k + 1)
    }
}

/// The position of the first section named `name`, if any.
pub open spec fn first_named(sections: Seq<SectionHeader>, name: Seq<char>) -> Option<int> {
    first_named_from(sections, name, 0)
}

impl ExeHeader {
    /// The first section whose name is `name`.
    pub fn get_section(&self, name: &str) -> (r: Option<&SectionHeader>)
        ensures
            match first_named(self.sections@, name@) {
                Some(i) => r == Some(&self.sections@[i]),
                None => r is None,
            },
    {
        let wanted = name.to_owned();
        let mut i: usize = 0;
        while i < self.sections.len()
            invariant
                wanted@ == name@,
                i <= self.sections@.len(),
                first_named(self.sections@, name@) == first_named_from(self.sections@, name@, i as int),
            decreases self.sections.len() - i,
        {
            if self.sections[i].name == wanted {
                return Some(&self.sections[i]);
            }
            i = i + 1;
        }
        None
    }
}

/// The section data `h` names lies inside an image of `len` bytes.
pub open spec fn section_in_image(h: SectionHeader, len: int) -> bool {
    h.raw_data_ptr + h.raw_data_size <= len
}

impl ExeReader {
    /// Takes the bytes of an executable image and parses its header.
    pub fn open(data: Vec<u8>) -> (r: Result<ExeReader, ScanError>)
        ensures
            match r {
                Ok(reader) => header_in_range(data@) && names_ascii(data@) && header_read(
                    data@,
                    reader.header,
                ) && reader.data@ == data@,
                Err(e) => e == ScanError::Format && !header_in_range(data@) || e == ScanError::Encoding
                    && header_in_range(data@) && !names_ascii(data@),
            },
    {
        match parse_header(data.as_slice()) {
            Ok(header) => Ok(ExeReader { data, header }),
            Err(e) => Err(e),
        }
    }

    pub fn get_section_header(&self, name: &str) -> (r: Option<&SectionHeader>)
        ensures
            match first_named(self.header.sections@, name@) {
                Some(i) => r == Some(&self.header.sections@[i]),
                None => r is None,
            },
    {
        self.header.get_section(name)
    }

    /// Copies out the raw data of a section; fails where the image is too short.
    pub fn read_section_data(&self, section: &SectionHeader) -> (r: Result<Vec<u8>, ScanError>)
        ensures
            match r {
                Ok(v) => section_in_image(*section, self.data@.len() as int) && v@
                    == self.data@.subrange(
                    section.raw_data_ptr as int,
                    section.raw_data_ptr + section.raw_data_size,
                ),
                Err(e) => e == ScanError::Io && !section_in_image(*section, self.data@.len() as int),
            },
    {
        let start = section.raw_data_ptr as u64;
        let end = start + section.raw_data_size as u64;
        if end > self.data.len() as u64 {
            return Err(ScanError::Io);
        }
        let start = start as usize;
        let end = end as usize;
        let mut v: Vec<u8> = Vec::new();
        let mut k: usize = start;
        while k < end
            invariant
                start <= k <= end,
                end <= self.data@.len(),
                v@ == self.data@.subrange(start as int, k as int),
            decreases end - k,
        {
            v.push(self.data[k]);
            k = k + 1;
            assert(v@ =~= self.data@.subrange(start as int, k as int));
        }
        Ok(v)
    }
}

} // verus!
