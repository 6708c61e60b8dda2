//! Offsets inside a loaded section, translated to file and image offsets.

use vstd::prelude::*;

use crate::header::SectionHeader;

verus! {

/// A byte offset inside one section, with that section's file and virtual
/// placement.
#[derive(Debug, Clone, Copy, PartialEq, Eq)]
pub struct Pointer {
    /// Offset from the first byte of the section.
    pub value: usize,
    /// File offset of the section's raw data.
    pub raw_offset: u32,
    /// Relative virtual address of the section.
    pub virtual_offset: u32,
}

/// The pointer to local offset `value` of the section `header` describes.
pub open spec fn pointer_for(value: usize, header: SectionHeader) -> Pointer {
    Pointer { value, raw_offset: header.raw_data_ptr, virtual_offset: header.virtual_addr }
}

impl Pointer {
    /// Offset in the file.
    pub open spec fn file_pos(&self) -> int {
        self.value + self.raw_offset
    }

    /// Offset in the loaded image.
    pub open spec fn virtual_pos(&self) -> int {
        self.value + self.virtual_offset
    }

    pub fn new(value: usize, header: &SectionHeader) -> (r: Self)
        ensures
            r == pointer_for(value, *header),
    {
        Pointer { value, raw_offset: header.raw_data_ptr, virtual_offset: header.virtual_addr }
    }

    pub fn raw_value(&self) -> (r: usize)
        ensures
            r == self.value,
    {
        self.value
    }

    pub fn file_offset(&self) -> (r: usize)
        requires
            self.file_pos() <= usize::MAX,
        ensures
            r == self.file_pos(),
    {
        self.value + self.raw_offset as usize
    }

    pub fn virtual_offset(&self) -> (r: usize)
        requires
            self.virtual_pos() <= usize::MAX,
        ensures
            r == self.virtual_pos(),
    {
        self.value + self.virtual_offset as usize
    }
}

/// A pointer to local offset `l` of a section lies `l` bytes past the
/// section's raw data in the file and `l` bytes past its virtual address in
/// the image.
pub proof fn lemma_pointer_offsets(header: SectionHeader, l: usize)
    requires
        l < header.raw_data_size,
    ensures
        pointer_for(l, header).file_pos() == l + header.raw_data_ptr,
        pointer_for(l, header).virtual_pos() == l + header.virtual_addr,
{
}

} // verus!
