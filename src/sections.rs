use std::ops::Range;

use vstd::prelude::*;

use crate::cursor::{in_bounds, le16, le32, u16_at, u32_at};
use crate::error::LoadError;

verus! {

/// Size of one section header.
pub const SECTION_HEADER_SIZE: u64 = 40;

/// One entry of the section table.
#[derive(Clone, Copy, Debug, PartialEq, Eq)]
pub struct ImageSectionHeader {
    /// Raw name, not necessarily zero-terminated.
    pub name: [u8; 8],
    pub virtual_size: u32,
    pub virtual_address: u32,
    pub size_of_raw_data: u32,
    pub pointer_to_raw_data: u32,
    pub pointer_to_relocations: u32,
    pub pointer_to_line_numbers: u32,
    pub number_of_relocations: u16,
    pub number_of_line_numbers: u16,
    pub characteristics: u32,
}

/// What address translation needs of a section: where its raw data sits in
/// the virtual space and in the file.
#[derive(Clone, Copy, Debug, PartialEq, Eq, Structural)]
pub struct SectionSpan {
    pub virtual_address: u32,
    pub size_of_raw_data: u32,
    pub pointer_to_raw_data: u32,
}

impl ImageSectionHeader {
    /// What address translation needs of this section.
    pub open spec fn span(&self) -> SectionSpan {
        SectionSpan {
            virtual_address: self.virtual_address,
            size_of_raw_data: self.size_of_raw_data,
            pointer_to_raw_data: self.pointer_to_raw_data,
        }
    }

    /// The virtual addresses that the section's raw data occupies.
    pub fn virtual_address_range(&self) -> (r: Range<u64>)
        ensures
            r.start == self.virtual_address,
            r.end == self.virtual_address + self.size_of_raw_data,
    {
        self.virtual_address as u64..self.virtual_address as u64 + self.size_of_raw_data as u64
    }

    /// Whether `val` lies among the virtual addresses of the section's raw data.
    pub fn in_range(&self, val: u32) -> (r: bool)
        ensures
            r == span_contains(self.span(), val as int),
    {
        val >= self.virtual_address && (val as u64) < self.virtual_address as u64
            + self.size_of_raw_data as u64
    }
}

/// `rva` lies in `[virtual_address, virtual_address + size_of_raw_data)`.
pub open spec fn span_contains(s: SectionSpan, rva: int) -> bool {
    s.virtual_address <= rva < s.virtual_address + s.size_of_raw_data
}

/// The section covers `rva`; a section at virtual address zero covers nothing.
pub open spec fn covers(s: SectionSpan, rva: int) -> bool {
    s.virtual_address != 0 && span_contains(s, rva)
}

/// The section header at `off`.
pub open spec fn is_section_header_at(h: ImageSectionHeader, b: Seq<u8>, off: int) -> bool {
    &&& h.name@ == b.subrange(off, off + 8)
    &&& h.virtual_size == le32(b, off + 8)
    &&& h.span() == span_at(b, off)
    &&& h.pointer_to_relocations == le32(b, off + 24)
    &&& h.pointer_to_line_numbers == le32(b, off + 28)
    &&& h.number_of_relocations == le16(b, off + 32)
    &&& h.number_of_line_numbers == le16(b, off + 34)
    &&& h.characteristics == le32(b, off + 36)
}

/// The span of the section header at `off`.
pub open spec fn span_at(b: Seq<u8>, off: int) -> SectionSpan {
    SectionSpan {
        virtual_address: le32(b, off + 12) as u32,
        size_of_raw_data: le32(b, off + 16) as u32,
        pointer_to_raw_data: le32(b, off + 20) as u32,
    }
}

/// The spans of the `n` section headers starting at `off`.
pub open spec fn spans_at(b: Seq<u8>, off: int, n: nat) -> Seq<SectionSpan> {
    Seq::new(n, |i: int| span_at(b, off + i * SECTION_HEADER_SIZE))
}

/// The section table of `n` entries at `off`: every entry must lie in `b`.
pub open spec fn section_table_at(b: Seq<u8>, off: int, n: nat) -> Result<Seq<SectionSpan>, LoadError> {
    if in_bounds(b, off, n * SECTION_HEADER_SIZE) {
        Ok(spans_at(b, off, n))
    } else {
        Err(LoadError::OutOfBounds)
    }
}

/// Decodes the section header at `off`.
pub fn read_section_header(b: &[u8], off: usize) -> (r: ImageSectionHeader)
    requires
        in_bounds(b@, off as int, SECTION_HEADER_SIZE as int),
    ensures
        is_section_header_at(r, b@, off as int),
{
    let name = [b[off], b[off + 1], b[off + 2], b[off + 3], b[off + 4], b[off + 5], b[off + 6], b[off + 7]];
    assert(name@ =~= b@.subrange(off as int, off + 8));
    ImageSectionHeader {
        name,
        virtual_size: u32_at(b, off + 8),
        virtual_address: u32_at(b, off + 12),
        size_of_raw_data: u32_at(b, off + 16),
        pointer_to_raw_data: u32_at(b, off + 20),
        pointer_to_relocations: u32_at(b, off + 24),
        pointer_to_line_numbers: u32_at(b, off + 28),
        number_of_relocations: u16_at(b, off + 32),
        number_of_line_numbers: u16_at(b, off + 34),
        characteristics: u32_at(b, off + 36),
    }
}

/// Decodes the `n` section headers at `off`, in on-disk order.
pub fn parse_section_table(b: &[u8], off: u64, n: u16) -> (r: Result<Vec<ImageSectionHeader>, LoadError>)
    ensures
        r matches Ok(v) ==> {
            &&& section_table_at(b@, off as int, n as nat) == Ok::<Seq<SectionSpan>, LoadError>(
                v@.map_values(|h: ImageSectionHeader| h.span()),
            )
            &&& v.len() == n
            &&& forall|i: int| 0 <= i < n ==> is_section_header_at(#[trigger] v@[i], b@, off + i * SECTION_HEADER_SIZE)
        },
        r matches Err(e) ==> section_table_at(b@, off as int, n as nat) == Err::<Seq<SectionSpan>, LoadError>(e),
{
    let len = b.len() as u64;
    let total = n as u64 * SECTION_HEADER_SIZE;
    if off > len || total > len - off {
        return Err(LoadError::OutOfBounds);
    }
    let mut v: Vec<ImageSectionHeader> = Vec::new();
    let mut i: u16 = 0;
    while i < n
        invariant
            i <= n,
            len == b@.len(),
            b@.len() <= usize::MAX,
            total == n * SECTION_HEADER_SIZE,
            off + total <= len,
            v.len() == i,
            forall|k: int| 0 <= k < i ==> is_section_header_at(#[trigger] v@[k], b@, off + k * SECTION_HEADER_SIZE),
        decreases n - i,
    {
        let at = off + i as u64 * SECTION_HEADER_SIZE;
        assert(at + SECTION_HEADER_SIZE <= off + total) by (nonlinear_arith)
            requires at == off + i * SECTION_HEADER_SIZE, i < n, total == n * SECTION_HEADER_SIZE;
        let h = read_section_header(b, at as usize);
        v.push(h);
        i = i + 1;
    }
    assert(v@.map_values(|h: ImageSectionHeader| h.span()) =~= spans_at(b@, off as int, n as nat));
    Ok(v)
}

/// `i` is the first section in `secs` that covers `rva`.
pub open spec fn is_first_cover(secs: Seq<SectionSpan>, rva: int, i: int) -> bool {
    &&& 0 <= i < secs.len()
    &&& covers(secs[i], rva)
    &&& forall|j: int| 0 <= j < i ==> !covers(secs[j], rva)
}

/// The file offset of `rva`, through the first section that covers it.
pub open spec fn rva_to_offset(secs: Seq<SectionSpan>, rva: int) -> Result<int, LoadError> {
    if exists|i: int| is_first_cover(secs, rva, i) {
        let i = choose|i: int| is_first_cover(secs, rva, i);
        Ok(rva - secs[i].virtual_address + secs[i].pointer_to_raw_data)
    } else {
        Err(LoadError::RvaNotMapped)
    }
}

/// Translates `rva` to a file offset through the first section, in on-disk
/// order, that covers it. The offset is not checked against the file.
pub fn translate(sections: &Vec<ImageSectionHeader>, rva: u32) -> (r: Result<u64, LoadError>)
    ensures
        r matches Ok(o) ==> rva_to_offset(sections@.map_values(|h: ImageSectionHeader| h.span()), rva as int)
            == Ok::<int, LoadError>(o as int),
        r matches Err(e) ==> rva_to_offset(sections@.map_values(|h: ImageSectionHeader| h.span()), rva as int)
            == Err::<int, LoadError>(e),
{
    let ghost secs = sections@.map_values(|h: ImageSectionHeader| h.span());
    let mut i: usize = 0;
    while i < sections.len()
        invariant
            i <= sections.len(),
            secs == sections@.map_values(|h: ImageSectionHeader| h.span()),
            forall|j: int| 0 <= j < i ==> !covers(secs[j], rva as int),
        decreases sections.len() - i,
    {
        let s = &sections[i];
        if s.virtual_address != 0 && s.in_range(rva) {
            assert(is_first_cover(secs, rva as int, i as int));
            let ghost k = choose|k: int| is_first_cover(secs, rva as int, k);
            assert(k == i as int);
            return Ok((rva - s.virtual_address) as u64 + s.pointer_to_raw_data as u64);
        }
        i = i + 1;
    }
    assert(!exists|k: int| is_first_cover(secs, rva as int, k));
    Err(LoadError::RvaNotMapped)
}

} // verus!
