use vstd::prelude::*;

use crate::cursor::{cstring_at, in_bounds, lemma_len_fits, le32, read_cstring, u32_at};
use crate::error::LoadError;
use crate::headers::ImageDataDirectory;
use crate::sections::{rva_to_offset, translate, ImageSectionHeader, SectionSpan};

verus! {

/// Size of one import descriptor.
pub const IMPORT_DESCRIPTOR_SIZE: u64 = 20;
/// Longest name, in bytes, that is looked for before a string counts as unterminated.
pub const MAX_NAME_LEN: u64 = 4096;

/// One entry of the import directory: a library and its thunk arrays.
#[derive(Clone, Copy, Debug, PartialEq, Eq, Structural)]
pub struct ImageImportDescriptor {
    pub original_first_thunk: u32,
    pub time_date_stamp: u32,
    pub forwarder_chain: u32,
    pub name: u32,
    pub first_thunk: u32,
}

impl ImageImportDescriptor {
    /// The all-zero descriptor that ends the directory.
    pub open spec fn spec_is_terminator(&self) -> bool {
        self.original_first_thunk == 0 && self.time_date_stamp == 0 && self.forwarder_chain == 0
            && self.name == 0 && self.first_thunk == 0
    }

    /// Whether this is the all-zero descriptor that ends the directory.
    pub fn is_terminator(&self) -> (r: bool)
        ensures
            r == self.spec_is_terminator(),
    {
        self.original_first_thunk == 0 && self.time_date_stamp == 0 && self.forwarder_chain == 0
            && self.name == 0 && self.first_thunk == 0
    }
}

/// The import descriptor at `off`.
pub open spec fn import_descriptor_at(b: Seq<u8>, off: int) -> ImageImportDescriptor {
    ImageImportDescriptor {
        original_first_thunk: le32(b, off) as u32,
        time_date_stamp: le32(b, off + 4) as u32,
        forwarder_chain: le32(b, off + 8) as u32,
        name: le32(b, off + 12) as u32,
        first_thunk: le32(b, off + 16) as u32,
    }
}

/// Decodes the import descriptor at `off`.
pub fn read_import_descriptor(b: &[u8], off: usize) -> (r: ImageImportDescriptor)
    requires
        in_bounds(b@, off as int, IMPORT_DESCRIPTOR_SIZE as int),
    ensures
        r == import_descriptor_at(b@, off as int),
{
    proof {
        lemma_len_fits(b);
    }
    ImageImportDescriptor {
        original_first_thunk: u32_at(b, off),
        time_date_stamp: u32_at(b, off + 4),
        forwarder_chain: u32_at(b, off + 8),
        name: u32_at(b, off + 12),
        first_thunk: u32_at(b, off + 16),
    }
}

/// `r` with `acc` put in front of its sequence, when it is one.
pub open spec fn prepend<T>(acc: Seq<T>, r: Result<Seq<T>, LoadError>) -> Result<Seq<T>, LoadError> {
    match r {
        Ok(rest) => Ok(acc + rest),
        Err(e) => Err(e),
    }
}

/// Putting `acc`, then `x`, in front is putting `acc` followed by `x` in front.
pub proof fn lemma_prepend_push<T>(acc: Seq<T>, x: T, r: Result<Seq<T>, LoadError>)
    ensures
        prepend(acc, prepend(seq![x], r)) == prepend(acc.push(x), r),
{
    if let Ok(rest) = r {
        assert(acc + (seq![x] + rest) =~= acc.push(x) + rest);
    }
}

/// The library names and thunk-array addresses of the descriptors from the
/// `i`-th on, in a directory of `size` bytes at file offset `base`.
pub open spec fn descriptors_from(b: Seq<u8>, secs: Seq<SectionSpan>, base: int, size: int, i: nat)
    -> Result<Seq<(Seq<u8>, u32)>, LoadError>
    decreases size - i * IMPORT_DESCRIPTOR_SIZE,
{
    let at = base + i * IMPORT_DESCRIPTOR_SIZE;
    if (i + 1) * IMPORT_DESCRIPTOR_SIZE > size {
        Ok(Seq::empty())
    } else if !in_bounds(b, at, IMPORT_DESCRIPTOR_SIZE as int) {
        Err(LoadError::OutOfBounds)
    } else {
        let d = import_descriptor_at(b, at);
        if d.spec_is_terminator() {
            Ok(Seq::empty())
        } else {
            match rva_to_offset(secs, d.name as int) {
                Err(_) => Err(LoadError::InvalidImportDescriptor),
                Ok(o) => match cstring_at(b, o, MAX_NAME_LEN as int) {
                    Err(e) => Err(e),
                    Ok(name) => prepend(seq![(name, d.first_thunk)], descriptors_from(b, secs, base, size, i + 1)),
                },
            }
        }
    }
}

/// The libraries that the import directory `dir` lists, each with the
/// address of its thunk array.
pub open spec fn import_directory_at(b: Seq<u8>, secs: Seq<SectionSpan>, dir: ImageDataDirectory)
    -> Result<Seq<(Seq<u8>, u32)>, LoadError>
{
    if dir.size == 0 {
        Ok(Seq::empty())
    } else {
        match rva_to_offset(secs, dir.virtual_address as int) {
            Err(e) => Err(e),
            Ok(base) => descriptors_from(b, secs, base, dir.size as int, 0),
        }
    }
}

/// The spans of a decoded section table.
pub open spec fn spans_of(sections: Seq<ImageSectionHeader>) -> Seq<SectionSpan> {
    sections.map_values(|h: ImageSectionHeader| h.span())
}

/// The libraries of a walk, with their names as sequences.
pub open spec fn libraries_view(v: Seq<(Vec<u8>, u32)>) -> Seq<(Seq<u8>, u32)> {
    v.map_values(|p: (Vec<u8>, u32)| (p.0@, p.1))
}

/// Walks the import directory `dir`, giving each library's name and the
/// address of its thunk array, in directory order.
pub fn walk_import_directory(b: &[u8], sections: &Vec<ImageSectionHeader>, dir: ImageDataDirectory)
    -> (r: Result<Vec<(Vec<u8>, u32)>, LoadError>)
    ensures
        r matches Ok(v) ==> import_directory_at(b@, spans_of(sections@), dir)
            == Ok::<Seq<(Seq<u8>, u32)>, LoadError>(libraries_view(v@)),
        r matches Err(e) ==> import_directory_at(b@, spans_of(sections@), dir)
            == Err::<Seq<(Seq<u8>, u32)>, LoadError>(e),
{
    let ghost secs = spans_of(sections@);
    let mut out: Vec<(Vec<u8>, u32)> = Vec::new();
    if dir.size == 0 {
        assert(libraries_view(out@) =~= Seq::<(Seq<u8>, u32)>::empty());
        return Ok(out);
    }
    let base = translate(sections, dir.virtual_address)?;
    let size = dir.size as u64;
    let len = b.len() as u64;
    let mut i: u64 = 0;
    while (i + 1) * IMPORT_DESCRIPTOR_SIZE <= size
        invariant
            secs == spans_of(sections@),
            rva_to_offset(secs, dir.virtual_address as int) == Ok::<int, LoadError>(base as int),
            base <= 0x2_0000_0000,
            size == dir.size,
            i * IMPORT_DESCRIPTOR_SIZE <= size,
            len == b@.len(),
            b@.len() <= usize::MAX,
            import_directory_at(b@, secs, dir) == prepend(
                libraries_view(out@),
                descriptors_from(b@, secs, base as int, size as int, i as nat),
            ),
        decreases size - i * IMPORT_DESCRIPTOR_SIZE,
    {
        let at = base + i * IMPORT_DESCRIPTOR_SIZE;
        if at > len || IMPORT_DESCRIPTOR_SIZE > len - at {
            return Err(LoadError::OutOfBounds);
        }
        let d = read_import_descriptor(b, at as usize);
        if d.is_terminator() {
            assert(libraries_view(out@) + Seq::<(Seq<u8>, u32)>::empty() =~= libraries_view(out@));
            return Ok(out);
        }
        let name_off = match translate(sections, d.name) {
            Ok(o) => o,
            Err(_) => {
                return Err(LoadError::InvalidImportDescriptor);
            },
        };
        let name = read_cstring(b, name_off, MAX_NAME_LEN)?;
        proof {
            lemma_prepend_push(
                libraries_view(out@),
                (name@, d.first_thunk),
                descriptors_from(b@, secs, base as int, size as int, (i + 1) as nat),
            );
        }
        let ghost old_out = out@;
        out.push((name, d.first_thunk));
        assert(libraries_view(out@) =~= libraries_view(old_out).push((name@, d.first_thunk)));
        i = i + 1;
    }
    assert(libraries_view(out@) + Seq::<(Seq<u8>, u32)>::empty() =~= libraries_view(out@));
    Ok(out)
}

} // verus!
