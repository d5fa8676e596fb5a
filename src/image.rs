use vstd::prelude::*;

use crate::cursor::le16;
use crate::error::LoadError;
use crate::headers::{headers_at, parse_headers, OptionalHeader, PeHeaders, DOS_HEADER_SIZE};
use crate::imports::{import_directory_at, libraries_view, spans_of, walk_import_directory};
use crate::sections::{parse_section_table, section_table_at, ImageSectionHeader, SectionSpan};
use crate::table::ImportTable;
use crate::thunks::{failures_of, resolve_thunks, symbols_of, thunk_array_at, SymbolView};

verus! {

/// What each entry of one library's thunk array stands for.
pub type Outcomes = Seq<Result<SymbolView, LoadError>>;

/// Each library of `descs` with the outcomes of its thunk array.
pub open spec fn resolve_all(b: Seq<u8>, secs: Seq<SectionSpan>, descs: Seq<(Seq<u8>, u32)>, wide: bool)
    -> Result<Seq<(Seq<u8>, Outcomes)>, LoadError>
    decreases descs.len(),
{
    if descs.len() == 0 {
        Ok(Seq::empty())
    } else {
        match resolve_all(b, secs, descs.drop_last(), wide) {
            Err(e) => Err(e),
            Ok(prev) => match thunk_array_at(b, secs, descs.last().1, wide) {
                Err(e) => Err(e),
                Ok(outcomes) => Ok(prev.push((descs.last().0, outcomes))),
            },
        }
    }
}

/// The imports of the image `b`: each library of its import directory, in
/// directory order, with the outcomes of its thunk array.
pub open spec fn imports_of(b: Seq<u8>) -> Result<Seq<(Seq<u8>, Outcomes)>, LoadError> {
    match headers_at(b) {
        Err(e) => Err(e),
        Ok(h) => match section_table_at(b, h.section_table_offset as int, h.file_header.number_of_sections as nat) {
            Err(e) => Err(e),
            Ok(secs) => match import_directory_at(b, secs, h.optional_header.spec_data_directories().import_table) {
                Err(e) => Err(e),
                Ok(descs) => resolve_all(b, secs, descs, h.optional_header is Pe32Plus),
            },
        },
    }
}

/// Each library mapped to its symbols; a library listed again replaces what
/// it had.
pub open spec fn table_of(libs: Seq<(Seq<u8>, Outcomes)>) -> Map<Seq<u8>, Set<SymbolView>>
    decreases libs.len(),
{
    if libs.len() == 0 {
        Map::empty()
    } else {
        table_of(libs.drop_last()).insert(libs.last().0, symbols_of(libs.last().1))
    }
}

/// The failed entries of every library, with the library's name, in order.
pub open spec fn skipped_of(libs: Seq<(Seq<u8>, Outcomes)>) -> Seq<(Seq<u8>, LoadError)>
    decreases libs.len(),
{
    if libs.len() == 0 {
        Seq::empty()
    } else {
        let name = libs.last().0;
        skipped_of(libs.drop_last()) + failures_of(libs.last().1).map_values(|e: LoadError| (name, e))
    }
}

/// `r` is what loading the image `b` gives.
pub open spec fn loaded(b: Seq<u8>, r: Result<ImportTable, LoadError>) -> bool {
    match imports_of(b) {
        Ok(libs) => r matches Ok(t) && t.wf() && t@ == table_of(libs) && t.skipped_view() == skipped_of(libs),
        Err(e) => r == Err::<ImportTable, LoadError>(e),
    }
}

proof fn lemma_resolve_prefix_err(b: Seq<u8>, secs: Seq<SectionSpan>, descs: Seq<(Seq<u8>, u32)>, n: int, wide: bool)
    requires
        0 <= n <= descs.len(),
        resolve_all(b, secs, descs.subrange(0, n), wide) is Err,
    ensures
        resolve_all(b, secs, descs, wide) == resolve_all(b, secs, descs.subrange(0, n), wide),
    decreases descs.len(),
{
    if n == descs.len() {
        assert(descs.subrange(0, n) =~= descs);
    } else {
        assert(descs.drop_last().subrange(0, n) =~= descs.subrange(0, n));
        lemma_resolve_prefix_err(b, secs, descs.drop_last(), n, wide);
    }
}

/// The import table of a load's result, or its error.
pub open spec fn imports_part(r: Result<Pe, LoadError>) -> Result<ImportTable, LoadError> {
    match r {
        Ok(pe) => Ok(pe.imported),
        Err(e) => Err(e),
    }
}

/// A decoded image: its headers, its section table and its imports.
#[derive(Clone, Debug)]
pub struct Pe {
    pub headers: PeHeaders,
    pub sections: Vec<ImageSectionHeader>,
    pub imported: ImportTable,
}

impl Pe {
    /// Decodes the header chain and the section table of `bytes`, then
    /// resolves every library of its import directory.
    pub fn load(bytes: &[u8]) -> (r: Result<Pe, LoadError>)
        ensures
            loaded(bytes@, imports_part(r)),
            r matches Ok(pe) ==> headers_at(bytes@) == Ok::<PeHeaders, LoadError>(pe.headers)
                && section_table_at(bytes@, pe.headers.section_table_offset as int,
                    pe.headers.file_header.number_of_sections as nat) == Ok::<Seq<SectionSpan>, LoadError>(
                    spans_of(pe.sections@)),
    {
        let headers = parse_headers(bytes)?;
        let sections = parse_section_table(bytes, headers.section_table_offset, headers.file_header.number_of_sections)?;
        let ghost secs = spans_of(sections@);
        let dir = headers.optional_header.import_table();
        let wide = match headers.optional_header {
            OptionalHeader::Pe32Plus(_) => true,
            OptionalHeader::Pe32(_) => false,
        };
        let libs = walk_import_directory(bytes, &sections, dir)?;
        let ghost descs = libraries_view(libs@);
        let mut imported = ImportTable::new();
        let ghost mut done: Seq<(Seq<u8>, Outcomes)> = Seq::empty();
        let mut i: usize = 0;
        while i < libs.len()
            invariant
                i <= libs.len(),
                secs == spans_of(sections@),
                descs == libraries_view(libs@),
                imports_of(bytes@) == resolve_all(bytes@, secs, descs, wide),
                resolve_all(bytes@, secs, descs.subrange(0, i as int), wide) == Ok::<Seq<(Seq<u8>, Outcomes)>, LoadError>(done),
                imported.wf(),
                imported@ == table_of(done),
                imported.skipped_view() == skipped_of(done),
            decreases libs.len() - i,
        {
            let name = libs[i].0.clone();
            assert(name@ =~= libs@[i as int].0@);
            assert(descs.subrange(0, i + 1).drop_last() =~= descs.subrange(0, i as int));
            let resolved = match resolve_thunks(bytes, &sections, libs[i].1, wide) {
                Ok(t) => t,
                Err(e) => {
                    proof {
                        lemma_resolve_prefix_err(bytes@, secs, descs, i + 1, wide);
                    }
                    return Err(e);
                },
            };
            let ghost outcomes = thunk_array_at(bytes@, secs, libs@[i as int].1, wide)->Ok_0;
            imported.record_skipped(&name, &resolved.failures);
            imported.insert_library(name, resolved.symbols);
            proof {
                let prev = done;
                done = done.push((descs[i as int].0, outcomes));
                assert(done.drop_last() =~= prev);
            }
            i = i + 1;
        }
        assert(descs.subrange(0, i as int) =~= descs);
        Ok(Pe { headers, sections, imported })
    }
}

/// The import table of the image `bytes`: every library it imports from, each
/// with the set of symbols it imports, by name or by ordinal.
pub fn load(bytes: &[u8]) -> (r: Result<ImportTable, LoadError>)
    ensures
        loaded(bytes@, r),
{
    match Pe::load(bytes) {
        Ok(pe) => Ok(pe.imported),
        Err(e) => Err(e),
    }
}

/// Loading a buffer shorter than the DOS header fails with `OutOfBounds`.
pub proof fn short_buffer_is_out_of_bounds(b: Seq<u8>, r: Result<ImportTable, LoadError>)
    requires
        b.len() < DOS_HEADER_SIZE,
        loaded(b, r),
    ensures
        r == Err::<ImportTable, LoadError>(LoadError::OutOfBounds),
{
    reveal(headers_at);
}

/// Loading a buffer that holds a whole DOS header but does not start with
/// `MZ` fails with `BadDosSignature`.
pub proof fn missing_mz_is_bad_dos_signature(b: Seq<u8>, r: Result<ImportTable, LoadError>)
    requires
        b.len() >= DOS_HEADER_SIZE,
        !(b[0] == 0x4D && b[1] == 0x5A),
        loaded(b, r),
    ensures
        r == Err::<ImportTable, LoadError>(LoadError::BadDosSignature),
{
    assert(le16(b, 0) != 0x5A4D) by {
        let (lo, hi) = (b[0], b[1]);
        assert(lo + hi * 0x100 != 0x5A4D) by (nonlinear_arith)
            requires
                !(lo == 0x4D && hi == 0x5A),
                0 <= lo <= 0xFF,
                0 <= hi <= 0xFF,
        ;
    }
    assert(headers_at(b) == Err::<PeHeaders, LoadError>(LoadError::BadDosSignature)) by {
        reveal(headers_at);
    }
}

/// Loading a PE32 image whose headers and section table decode and whose
/// import directory has size zero gives an empty table.
pub proof fn empty_import_directory_loads_empty(b: Seq<u8>, r: Result<ImportTable, LoadError>)
    requires
        headers_at(b) matches Ok(h) && h.optional_header is Pe32
            && h.optional_header.spec_data_directories().import_table.size == 0
            && section_table_at(b, h.section_table_offset as int, h.file_header.number_of_sections as nat) is Ok,
        loaded(b, r),
    ensures
        r matches Ok(t) && t@ == Map::<Seq<u8>, Set<SymbolView>>::empty(),
{
}

/// Loading the same bytes twice gives equal results.
pub proof fn load_is_deterministic(b: Seq<u8>, r1: Result<ImportTable, LoadError>, r2: Result<ImportTable, LoadError>)
    requires
        loaded(b, r1),
        loaded(b, r2),
    ensures
        r1 is Ok <==> r2 is Ok,
        r1 matches Ok(t1) ==> r2 matches Ok(t2) && t1@ == t2@ && t1.skipped_view() == t2.skipped_view(),
        r1 matches Err(e1) ==> r2 == Err::<ImportTable, LoadError>(e1),
{
}

} // verus!
