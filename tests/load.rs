use pe_imports::cursor::{read_cstring, read_u16, read_u32, read_u64};
use pe_imports::error::LoadError;
use pe_imports::headers::{parse_headers, ImageDataDirectory, OptionalHeader, IMPORT_DIRECTORY};
use pe_imports::image::{load, Pe};
use pe_imports::sections::{translate, ImageSectionHeader};
use pe_imports::table::ImportTable;
use pe_imports::thunks::{read_image_import_by_name, ImportedSymbol};

const FILE_LEN: usize = 0x400;
const PE_OFFSET: usize = 0x40;
const OPT_OFFSET: usize = PE_OFFSET + 24;
const IDATA_VA: u32 = 0x1000;
const IDATA_RAW: u32 = 0x200;

/// Where the pieces of a synthetic image go, as RVAs inside the one section.
struct Layout {
    wide: bool,
    section_raw_size: u32,
    import_size: u32,
    name_rva: u32,
    thunks: Vec<u64>,
}

fn put16(b: &mut [u8], off: usize, v: u16) {
    b[off..off + 2].copy_from_slice(&v.to_le_bytes());
}

fn put32(b: &mut [u8], off: usize, v: u32) {
    b[off..off + 4].copy_from_slice(&v.to_le_bytes());
}

fn put64(b: &mut [u8], off: usize, v: u64) {
    b[off..off + 8].copy_from_slice(&v.to_le_bytes());
}

fn file_offset(rva: u32) -> usize {
    (rva - IDATA_VA + IDATA_RAW) as usize
}

fn default_layout(wide: bool) -> Layout {
    let flag = if wide { 0x8000_0000_0000_0000u64 } else { 0x8000_0000u64 };
    Layout {
        wide,
        section_raw_size: 0x200,
        import_size: 40,
        name_rva: 0x10A0,
        thunks: vec![0x1080, flag | 5],
    }
}

/// An image with one section holding an import directory that names one
/// library, `KERNEL32.dll`, whose thunk array is `layout.thunks`.
fn build(layout: &Layout) -> Vec<u8> {
    let mut b = vec![0u8; FILE_LEN];
    b[0] = b'M';
    b[1] = b'Z';
    put32(&mut b, 0x3C, PE_OFFSET as u32);
    b[PE_OFFSET..PE_OFFSET + 4].copy_from_slice(b"PE\0\0");
    let coff = PE_OFFSET + 4;
    put16(&mut b, coff, if layout.wide { 0x8664 } else { 0x14C });
    put16(&mut b, coff + 2, 1);
    let opt_size: u16 = if layout.wide { 240 } else { 224 };
    put16(&mut b, coff + 16, opt_size);
    put16(&mut b, OPT_OFFSET, if layout.wide { 0x20B } else { 0x10B });
    put32(&mut b, OPT_OFFSET + 60, 0x200);
    let dirs = OPT_OFFSET + if layout.wide { 112 } else { 96 };
    put32(&mut b, dirs + 8, IDATA_VA);
    put32(&mut b, dirs + 12, layout.import_size);
    let sec = OPT_OFFSET + opt_size as usize;
    b[sec..sec + 8].copy_from_slice(b".idata\0\0");
    put32(&mut b, sec + 8, layout.section_raw_size);
    put32(&mut b, sec + 12, IDATA_VA);
    put32(&mut b, sec + 16, layout.section_raw_size);
    put32(&mut b, sec + 20, IDATA_RAW);
    // descriptor 0, then the zero terminator
    let d = file_offset(IDATA_VA);
    put32(&mut b, d + 12, layout.name_rva);
    put32(&mut b, d + 16, 0x1040);
    // thunk array
    let mut t = file_offset(0x1040);
    for &e in &layout.thunks {
        if layout.wide {
            put64(&mut b, t, e);
            t += 8;
        } else {
            put32(&mut b, t, e as u32);
            t += 4;
        }
    }
    // import-by-name: hint, then the name
    let h = file_offset(0x1080);
    put16(&mut b, h, 0x11);
    b[h + 2..h + 2 + 12].copy_from_slice(b"ExitProcess\0");
    let n = file_offset(0x10A0);
    b[n..n + 13].copy_from_slice(b"KERNEL32.dll\0");
    b
}

fn kernel32() -> Vec<u8> {
    b"KERNEL32.dll".to_vec()
}

fn exit_process() -> ImportedSymbol {
    ImportedSymbol::ByName(b"ExitProcess".to_vec())
}

fn assert_kernel32_table(t: &ImportTable) {
    assert_eq!(t.len(), 1);
    let symbols = t.get(&kernel32()).expect("KERNEL32.dll is imported");
    assert_eq!(symbols.len(), 2);
    assert!(symbols.contains(&exit_process()));
    assert!(symbols.contains(&ImportedSymbol::ByOrdinal(5)));
    assert!(t.contains(&kernel32(), &exit_process()));
    assert!(t.contains(&kernel32(), &ImportedSymbol::ByOrdinal(5)));
    assert!(!t.contains(&kernel32(), &ImportedSymbol::ByOrdinal(6)));
}

#[test]
fn short_buffers_are_out_of_bounds() {
    for n in 0..0x40 {
        let mut b = vec![0u8; n];
        if n >= 2 {
            b[0] = b'M';
            b[1] = b'Z';
        }
        assert_eq!(load(&b).err(), Some(LoadError::OutOfBounds), "length {n}");
        let zeros = vec![0u8; n];
        assert_eq!(load(&zeros).err(), Some(LoadError::OutOfBounds), "length {n}");
    }
}

#[test]
fn missing_mz_is_bad_dos_signature() {
    let mut b = build(&default_layout(false));
    b[0] = b'Z';
    b[1] = b'M';
    assert_eq!(load(&b).err(), Some(LoadError::BadDosSignature));
    assert_eq!(load(&vec![0u8; 0x40]).err(), Some(LoadError::BadDosSignature));
    assert_eq!(load(&vec![0xFFu8; 0x100]).err(), Some(LoadError::BadDosSignature));
}

#[test]
fn zero_size_import_directory_loads_empty_table() {
    let mut layout = default_layout(false);
    layout.import_size = 0;
    let t = load(&build(&layout)).expect("loads");
    assert!(t.is_empty());
    assert_eq!(t.len(), 0);
    assert!(t.get(&kernel32()).is_none());
}

#[test]
fn kernel32_round_trip() {
    let b = build(&default_layout(false));
    let t = load(&b).expect("loads");
    assert_kernel32_table(&t);
    assert!(t.skipped().is_empty());
}

#[test]
fn loading_twice_gives_equal_tables() {
    let b = build(&default_layout(false));
    let t1 = load(&b).expect("loads");
    let t2 = load(&b).expect("loads");
    assert!(t1.same_imports(&t2));
    assert!(t2.same_imports(&t1));
    assert_eq!(t1.skipped().len(), t2.skipped().len());
    let mut layout = default_layout(false);
    layout.import_size = 0;
    let empty = load(&build(&layout)).expect("loads");
    assert!(!t1.same_imports(&empty));
    assert!(!empty.same_imports(&t1));
}

/// Adds a descriptor for `USER32.dll`, importing ordinal 9, before or after
/// the one for `KERNEL32.dll`.
fn with_user32(user32_first: bool) -> Vec<u8> {
    let mut b = build(&default_layout(false));
    let d = file_offset(IDATA_VA);
    let n = file_offset(0x10E0);
    b[n..n + 11].copy_from_slice(b"USER32.dll\0");
    put32(&mut b, file_offset(0x10C0), 0x8000_0009);
    let (kernel, user) = if user32_first { (d + 20, d) } else { (d, d + 20) };
    put32(&mut b, kernel + 12, 0x10A0);
    put32(&mut b, kernel + 16, 0x1040);
    put32(&mut b, user + 12, 0x10E0);
    put32(&mut b, user + 16, 0x10C0);
    put32(&mut b, OPT_OFFSET + 96 + 12, 60);
    b
}

#[test]
fn descriptor_order_does_not_matter() {
    let a = load(&with_user32(false)).expect("loads");
    let b = load(&with_user32(true)).expect("loads");
    assert_eq!(a.len(), 2);
    assert!(a.contains(&b"USER32.dll".to_vec(), &ImportedSymbol::ByOrdinal(9)));
    assert!(a.contains(&kernel32(), &exit_process()));
    assert!(a.same_imports(&b));
    let one = load(&build(&default_layout(false))).expect("loads");
    assert!(!a.same_imports(&one));
}

#[test]
fn name_one_past_section_end_is_invalid_descriptor() {
    let mut layout = default_layout(false);
    layout.name_rva = IDATA_VA + layout.section_raw_size;
    assert_eq!(load(&build(&layout)).err(), Some(LoadError::InvalidImportDescriptor));
}

#[test]
fn thunk_at_buffer_end_is_skipped() {
    let mut layout = default_layout(false);
    // the section's raw data is declared to run past the end of the file
    layout.section_raw_size = 0x300;
    let at_end: u32 = 0x1200;
    layout.thunks = vec![at_end as u64, 0x8000_0005, 0x1080];
    let b = build(&layout);
    let pe = Pe::load(&b).expect("loads");
    assert_eq!(translate(&pe.sections, at_end), Ok(FILE_LEN as u64));
    let t = load(&b).expect("loads");
    assert_kernel32_table(&t);
    assert_eq!(t.skipped().len(), 1);
    assert_eq!(t.skipped()[0].library, kernel32());
    assert_eq!(t.skipped()[0].error, LoadError::InvalidThunkEntry);
}

#[test]
fn pe32_and_pe32_plus_decode_alike() {
    let narrow = build(&default_layout(false));
    let wide = build(&default_layout(true));
    let h32 = parse_headers(&narrow).expect("PE32 headers");
    let h64 = parse_headers(&wide).expect("PE32+ headers");
    assert!(matches!(h32.optional_header, OptionalHeader::Pe32(_)));
    assert!(matches!(h64.optional_header, OptionalHeader::Pe32Plus(_)));
    assert_eq!(h32.optional_header.pointer_width(), 4);
    assert_eq!(h64.optional_header.pointer_width(), 8);
    assert_eq!(h32.section_table_offset, (OPT_OFFSET + 224) as u64);
    assert_eq!(h64.section_table_offset, (OPT_OFFSET + 240) as u64);
    assert_kernel32_table(&load(&narrow).expect("PE32 loads"));
    assert_kernel32_table(&load(&wide).expect("PE32+ loads"));
}

#[test]
fn magic_that_disagrees_with_size_is_unknown_layout() {
    let mut b = build(&default_layout(false));
    put16(&mut b, OPT_OFFSET, 0x20B);
    assert_eq!(load(&b).err(), Some(LoadError::UnknownOptionalHeaderLayout));
    let mut b = build(&default_layout(true));
    put16(&mut b, OPT_OFFSET, 0x10B);
    assert_eq!(load(&b).err(), Some(LoadError::UnknownOptionalHeaderLayout));
    let mut b = build(&default_layout(false));
    put16(&mut b, OPT_OFFSET, 0x107);
    assert_eq!(load(&b).err(), Some(LoadError::UnknownOptionalHeaderLayout));
}

#[test]
fn unknown_optional_header_size_is_rejected() {
    let mut b = build(&default_layout(false));
    put16(&mut b, PE_OFFSET + 4 + 16, 100);
    assert_eq!(load(&b).err(), Some(LoadError::UnknownOptionalHeaderLayout));
}

#[test]
fn bad_pe_signature_is_rejected() {
    let mut b = build(&default_layout(false));
    b[PE_OFFSET + 2] = b'X';
    assert_eq!(load(&b).err(), Some(LoadError::BadPeSignature));
}

#[test]
fn e_lfanew_past_the_end_is_out_of_bounds() {
    let mut b = build(&default_layout(false));
    put32(&mut b, 0x3C, FILE_LEN as u32 - 2);
    assert_eq!(load(&b).err(), Some(LoadError::OutOfBounds));
    put32(&mut b, 0x3C, 0xFFFF_FFFF);
    assert_eq!(load(&b).err(), Some(LoadError::OutOfBounds));
}

#[test]
fn truncated_optional_header_is_out_of_bounds() {
    let b = build(&default_layout(false));
    assert_eq!(load(&b[..OPT_OFFSET + 100]).err(), Some(LoadError::OutOfBounds));
}

#[test]
fn section_table_past_the_end_is_out_of_bounds() {
    let mut b = build(&default_layout(false));
    put16(&mut b, PE_OFFSET + 4 + 2, 100);
    assert_eq!(load(&b).err(), Some(LoadError::OutOfBounds));
}

#[test]
fn unmapped_import_directory_is_rva_not_mapped() {
    let b = build(&default_layout(false));
    let mut b2 = b.clone();
    put32(&mut b2, OPT_OFFSET + 96 + 8, 0x5000);
    assert_eq!(load(&b2).err(), Some(LoadError::RvaNotMapped));
}

#[test]
fn zero_address_section_is_never_used() {
    let mut b = build(&default_layout(false));
    let sec = OPT_OFFSET + 224;
    put32(&mut b, sec + 12, 0);
    put32(&mut b, OPT_OFFSET + 96 + 8, 0x10);
    assert_eq!(load(&b).err(), Some(LoadError::RvaNotMapped));
}

#[test]
fn unmapped_thunk_array_is_rva_not_mapped() {
    let mut b = build(&default_layout(false));
    put32(&mut b, file_offset(IDATA_VA) + 16, 0x9000);
    assert_eq!(load(&b).err(), Some(LoadError::RvaNotMapped));
}

#[test]
fn unterminated_thunk_array_is_out_of_bounds() {
    let mut layout = default_layout(false);
    layout.section_raw_size = 0x200;
    let mut b = build(&layout);
    // fill from the thunk array to the end of the file with ordinals
    let mut t = file_offset(0x1040);
    while t + 4 <= FILE_LEN {
        put32(&mut b, t, 0x8000_0001);
        t += 4;
    }
    assert_eq!(load(&b).err(), Some(LoadError::OutOfBounds));
}

#[test]
fn unterminated_library_name_is_reported() {
    let mut layout = default_layout(false);
    layout.name_rva = 0x11F8;
    let mut b = build(&layout);
    for byte in &mut b[file_offset(0x11F8)..] {
        *byte = b'A';
    }
    assert_eq!(load(&b).err(), Some(LoadError::UnterminatedString));
}

#[test]
fn empty_import_name_is_skipped() {
    let mut b = build(&default_layout(false));
    let h = file_offset(0x1080);
    b[h + 2] = 0;
    let t = load(&b).expect("loads");
    let symbols = t.get(&kernel32()).expect("KERNEL32.dll is imported");
    assert_eq!(symbols.len(), 1);
    assert!(symbols.contains(&ImportedSymbol::ByOrdinal(5)));
    assert_eq!(t.skipped().len(), 1);
    assert_eq!(t.skipped()[0].error, LoadError::InvalidImportByName);
}

#[test]
fn unmapped_thunk_entry_is_skipped() {
    let mut layout = default_layout(true);
    layout.thunks = vec![0x7000, 0x1_0000_0000, 0x1080, 0x8000_0000_0000_0005];
    let t = load(&build(&layout)).expect("loads");
    assert_kernel32_table(&t);
    assert_eq!(t.skipped().len(), 2);
    assert_eq!(t.skipped()[0].error, LoadError::InvalidThunkEntry);
    assert_eq!(t.skipped()[1].error, LoadError::InvalidThunkEntry);
}

#[test]
fn repeated_symbols_collapse() {
    let mut layout = default_layout(false);
    layout.thunks = vec![0x1080, 0x8000_0005, 0x1080, 0x8000_0005];
    let t = load(&build(&layout)).expect("loads");
    assert_kernel32_table(&t);
}

#[test]
fn ordinal_flag_is_masked_by_width() {
    let mut layout = default_layout(false);
    layout.thunks = vec![0xFFFF_FFFF];
    let t = load(&build(&layout)).expect("loads");
    assert!(t.contains(&kernel32(), &ImportedSymbol::ByOrdinal(0x7FFF_FFFF)));
    let mut layout = default_layout(true);
    layout.thunks = vec![0x8000_0000_0000_0000];
    let t = load(&build(&layout)).expect("loads");
    assert!(t.contains(&kernel32(), &ImportedSymbol::ByOrdinal(0)));
}

#[test]
fn descriptor_run_stops_at_declared_size() {
    // a size too small for even one descriptor: nothing is read
    let mut layout = default_layout(false);
    layout.import_size = 19;
    let t = load(&build(&layout)).expect("loads");
    assert!(t.is_empty());
    // a size that overcounts: the zero descriptor still ends the run
    let mut layout = default_layout(false);
    layout.import_size = 400;
    let t = load(&build(&layout)).expect("loads");
    assert_kernel32_table(&t);
}

#[test]
fn repeated_library_keeps_the_later_symbols() {
    let mut b = build(&default_layout(false));
    let d = file_offset(IDATA_VA);
    // a second descriptor for the same library, with a thunk array of one ordinal
    put32(&mut b, d + 20 + 12, 0x10A0);
    put32(&mut b, d + 20 + 16, 0x10C0);
    put32(&mut b, file_offset(0x10C0), 0x8000_0009);
    put32(&mut b, OPT_OFFSET + 96 + 12, 60);
    let t = load(&b).expect("loads");
    assert_eq!(t.len(), 1);
    let symbols = t.get(&kernel32()).expect("KERNEL32.dll is imported");
    assert_eq!(symbols.len(), 1);
    assert!(symbols.contains(&ImportedSymbol::ByOrdinal(9)));
}

#[test]
fn little_endian_reads() {
    let b = [0x01u8, 0x02, 0x03, 0x04, 0x05, 0x06, 0x07, 0x08];
    assert_eq!(read_u16(&b, 0), Ok(0x0201));
    assert_eq!(read_u32(&b, 1), Ok(0x0504_0302));
    assert_eq!(read_u64(&b, 0), Ok(0x0807_0605_0403_0201));
    assert_eq!(read_u16(&b, 7), Err(LoadError::OutOfBounds));
    assert_eq!(read_u32(&b, 5), Err(LoadError::OutOfBounds));
    assert_eq!(read_u64(&b, 1), Err(LoadError::OutOfBounds));
    assert_eq!(read_u16(&b, u64::MAX), Err(LoadError::OutOfBounds));
}

#[test]
fn cstring_reads() {
    let b = b"ab\0cd";
    assert_eq!(read_cstring(b, 0, 16), Ok(b"ab".to_vec()));
    assert_eq!(read_cstring(b, 2, 16), Ok(Vec::new()));
    assert_eq!(read_cstring(b, 0, 2), Err(LoadError::UnterminatedString));
    assert_eq!(read_cstring(b, 3, 16), Err(LoadError::UnterminatedString));
    assert_eq!(read_cstring(b, 5, 16), Err(LoadError::UnterminatedString));
    assert_eq!(read_cstring(b, 6, 16), Err(LoadError::OutOfBounds));
}

#[test]
fn section_ranges() {
    let h = ImageSectionHeader {
        name: *b".text\0\0\0",
        virtual_size: 0x80,
        virtual_address: 0x2000,
        size_of_raw_data: 0x100,
        pointer_to_raw_data: 0x400,
        pointer_to_relocations: 0,
        pointer_to_line_numbers: 0,
        number_of_relocations: 0,
        number_of_line_numbers: 0,
        characteristics: 0,
    };
    assert_eq!(h.virtual_address_range(), 0x2000..0x2100);
    assert!(h.in_range(0x2000));
    assert!(h.in_range(0x20FF));
    assert!(!h.in_range(0x2100));
    assert!(!h.in_range(0x1FFF));
    let top = ImageSectionHeader { virtual_address: 0xFFFF_FF00, size_of_raw_data: 0x200, ..h };
    assert_eq!(top.virtual_address_range(), 0xFFFF_FF00..0x1_0000_0100);
    assert!(top.in_range(0xFFFF_FFFF));
    let zero = ImageSectionHeader { virtual_address: 0, ..h };
    let sections = vec![zero, h];
    assert_eq!(translate(&sections, 0x2010), Ok(0x410));
    assert_eq!(translate(&sections, 0x10), Err(LoadError::RvaNotMapped));
    assert_eq!(translate(&sections, 0x2100), Err(LoadError::RvaNotMapped));
}

#[test]
fn optional_header_accessors() {
    for wide in [false, true] {
        let b = build(&default_layout(wide));
        let h = parse_headers(&b).expect("headers");
        let import = ImageDataDirectory { virtual_address: IDATA_VA, size: 40 };
        assert_eq!(h.optional_header.import_table(), import);
        assert_eq!(h.optional_header.data_directories().get(IMPORT_DIRECTORY), Some(import));
        assert_eq!(h.optional_header.data_directories().get(16), None);
        assert_eq!(h.optional_header.size_of_headers(), 0x200);
        assert_eq!(h.file_header.number_of_sections, 1);
        assert_eq!(h.file_header.machine, if wide { 0x8664 } else { 0x14C });
    }
}

#[test]
fn import_by_name_record() {
    let b = build(&default_layout(false));
    let r = read_image_import_by_name(&b, file_offset(0x1080) as u64).expect("record");
    assert_eq!(r.hint, 0x11);
    assert_eq!(r.name, b"ExitProcess".to_vec());
    assert_eq!(read_image_import_by_name(&b, FILE_LEN as u64 - 1).err(), Some(LoadError::OutOfBounds));
}
