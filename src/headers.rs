use vstd::prelude::*;

use crate::cursor::{in_bounds, lemma_len_fits, le16, le32, le64, read_u32, u16_at, u32_at, u64_at};
use crate::error::LoadError;

verus! {

/// `MZ`, read as a little-endian `u16`.
pub const DOS_SIGNATURE: u16 = 0x5A4D;
/// `PE\0\0`, read as a little-endian `u32`.
pub const PE_SIGNATURE: u32 = 0x4550;
/// Size of the DOS stub header, which holds `e_lfanew` in its last four bytes.
pub const DOS_HEADER_SIZE: u64 = 0x40;
/// File offset of `e_lfanew`.
pub const E_LFANEW_OFFSET: u64 = 0x3C;
/// Size of the COFF file header.
pub const FILE_HEADER_SIZE: u64 = 20;
/// Magic of the PE32 optional header.
pub const PE32_MAGIC: u16 = 0x10B;
/// Magic of the PE32+ optional header.
pub const PE32_PLUS_MAGIC: u16 = 0x20B;
/// Size of the PE32 optional header.
pub const PE32_HEADER_SIZE: u16 = 224;
/// Size of the PE32+ optional header.
pub const PE32_PLUS_HEADER_SIZE: u16 = 240;
/// Index of the import directory among the data directories.
pub const IMPORT_DIRECTORY: usize = 1;

/// Location and size of one of the tables that the optional header points to.
#[derive(Clone, Copy, Debug, PartialEq, Eq, Structural)]
pub struct ImageDataDirectory {
    pub virtual_address: u32,
    pub size: u32,
}

/// The data directory at `off`.
pub open spec fn data_directory_at(b: Seq<u8>, off: int) -> ImageDataDirectory {
    ImageDataDirectory { virtual_address: le32(b, off) as u32, size: le32(b, off + 4) as u32 }
}

/// The sixteen data directories, in their on-disk order.
#[derive(Clone, Copy, Debug, PartialEq, Eq, Structural)]
pub struct DataDirectories {
    pub export_table: ImageDataDirectory,
    pub import_table: ImageDataDirectory,
    pub resource_table: ImageDataDirectory,
    pub exception_table: ImageDataDirectory,
    pub certificate_table: ImageDataDirectory,
    pub base_relocation_table: ImageDataDirectory,
    pub debug: ImageDataDirectory,
    pub architecture: ImageDataDirectory,
    pub global_ptr: ImageDataDirectory,
    pub tls_table: ImageDataDirectory,
    pub load_config_table: ImageDataDirectory,
    pub bound_import: ImageDataDirectory,
    pub iat: ImageDataDirectory,
    pub delay_import_descriptor: ImageDataDirectory,
    pub clr_runtime_header: ImageDataDirectory,
    pub reserved: ImageDataDirectory,
}

/// The sixteen data directories starting at `off`.
pub open spec fn data_directories_at(b: Seq<u8>, off: int) -> DataDirectories {
    DataDirectories {
        export_table: data_directory_at(b, off),
        import_table: data_directory_at(b, off + 8),
        resource_table: data_directory_at(b, off + 16),
        exception_table: data_directory_at(b, off + 24),
        certificate_table: data_directory_at(b, off + 32),
        base_relocation_table: data_directory_at(b, off + 40),
        debug: data_directory_at(b, off + 48),
        architecture: data_directory_at(b, off + 56),
        global_ptr: data_directory_at(b, off + 64),
        tls_table: data_directory_at(b, off + 72),
        load_config_table: data_directory_at(b, off + 80),
        bound_import: data_directory_at(b, off + 88),
        iat: data_directory_at(b, off + 96),
        delay_import_descriptor: data_directory_at(b, off + 104),
        clr_runtime_header: data_directory_at(b, off + 112),
        reserved: data_directory_at(b, off + 120),
    }
}

/// Reads the sixteen data directories at `off`.
pub fn read_data_directories(b: &[u8], off: usize) -> (r: DataDirectories)
    requires
        in_bounds(b@, off as int, 128),
    ensures
        r == data_directories_at(b@, off as int),
{
    proof {
        lemma_len_fits(b);
    }
    DataDirectories {
        export_table: ImageDataDirectory { virtual_address: u32_at(b, off), size: u32_at(b, off + 4) },
        import_table: ImageDataDirectory { virtual_address: u32_at(b, off + 8), size: u32_at(b, off + 12) },
        resource_table: ImageDataDirectory { virtual_address: u32_at(b, off + 16), size: u32_at(b, off + 20) },
        exception_table: ImageDataDirectory { virtual_address: u32_at(b, off + 24), size: u32_at(b, off + 28) },
        certificate_table: ImageDataDirectory { virtual_address: u32_at(b, off + 32), size: u32_at(b, off + 36) },
        base_relocation_table: ImageDataDirectory { virtual_address: u32_at(b, off + 40), size: u32_at(b, off + 44) },
        debug: ImageDataDirectory { virtual_address: u32_at(b, off + 48), size: u32_at(b, off + 52) },
        architecture: ImageDataDirectory { virtual_address: u32_at(b, off + 56), size: u32_at(b, off + 60) },
        global_ptr: ImageDataDirectory { virtual_address: u32_at(b, off + 64), size: u32_at(b, off + 68) },
        tls_table: ImageDataDirectory { virtual_address: u32_at(b, off + 72), size: u32_at(b, off + 76) },
        load_config_table: ImageDataDirectory { virtual_address: u32_at(b, off + 80), size: u32_at(b, off + 84) },
        bound_import: ImageDataDirectory { virtual_address: u32_at(b, off + 88), size: u32_at(b, off + 92) },
        iat: ImageDataDirectory { virtual_address: u32_at(b, off + 96), size: u32_at(b, off + 100) },
        delay_import_descriptor: ImageDataDirectory { virtual_address: u32_at(b, off + 104), size: u32_at(b, off + 108) },
        clr_runtime_header: ImageDataDirectory { virtual_address: u32_at(b, off + 112), size: u32_at(b, off + 116) },
        reserved: ImageDataDirectory { virtual_address: u32_at(b, off + 120), size: u32_at(b, off + 124) },
    }
}

impl DataDirectories {
    /// The directory with the given index, in on-disk order.
    pub open spec fn spec_index(&self, index: int) -> Option<ImageDataDirectory> {
        if index == 0 {
            Some(self.export_table)
        } else if index == 1 {
            Some(self.import_table)
        } else if index == 2 {
            Some(self.resource_table)
        } else if index == 3 {
            Some(self.exception_table)
        } else if index == 4 {
            Some(self.certificate_table)
        } else if index == 5 {
            Some(self.base_relocation_table)
        } else if index == 6 {
            Some(self.debug)
        } else if index == 7 {
            Some(self.architecture)
        } else if index == 8 {
            Some(self.global_ptr)
        } else if index == 9 {
            Some(self.tls_table)
        } else if index == 10 {
            Some(self.load_config_table)
        } else if index == 11 {
            Some(self.bound_import)
        } else if index == 12 {
            Some(self.iat)
        } else if index == 13 {
            Some(self.delay_import_descriptor)
        } else if index == 14 {
            Some(self.clr_runtime_header)
        } else if index == 15 {
            Some(self.reserved)
        } else {
            None
        }
    }

    /// The directory with the given index, `None` past the sixteenth.
    pub fn get(&self, index: usize) -> (r: Option<ImageDataDirectory>)
        ensures
            r == self.spec_index(index as int),
    {
        match index {
            0 => Some(self.export_table),
            1 => Some(self.import_table),
            2 => Some(self.resource_table),
            3 => Some(self.exception_table),
            4 => Some(self.certificate_table),
            5 => Some(self.base_relocation_table),
            6 => Some(self.debug),
            7 => Some(self.architecture),
            8 => Some(self.global_ptr),
            9 => Some(self.tls_table),
            10 => Some(self.load_config_table),
            11 => Some(self.bound_import),
            12 => Some(self.iat),
            13 => Some(self.delay_import_descriptor),
            14 => Some(self.clr_runtime_header),
            15 => Some(self.reserved),
            _ => None,
        }
    }
}

/// The COFF file header that follows the PE signature.
#[derive(Clone, Copy, Debug, PartialEq, Eq, Structural)]
pub struct ImageFileHeader {
    pub machine: u16,
    pub number_of_sections: u16,
    pub time_date_stamp: u32,
    pub pointer_to_symbol_table: u32,
    pub number_of_symbols: u32,
    pub size_of_optional_header: u16,
    pub characteristics: u16,
}

/// The COFF file header at `off`.
pub open spec fn file_header_at(b: Seq<u8>, off: int) -> ImageFileHeader {
    ImageFileHeader {
        machine: (le16(b, off) as u16),
        number_of_sections: (le16(b, off + 2) as u16),
        time_date_stamp: (le32(b, off + 4) as u32),
        pointer_to_symbol_table: (le32(b, off + 8) as u32),
        number_of_symbols: (le32(b, off + 12) as u32),
        size_of_optional_header: (le16(b, off + 16) as u16),
        characteristics: (le16(b, off + 18) as u16),
    }
}

/// Decodes the COFF file header at `off`.
pub fn read_file_header(b: &[u8], off: usize) -> (r: ImageFileHeader)
    requires
        in_bounds(b@, off as int, 20),
    ensures
        r == file_header_at(b@, off as int),
{
    proof {
        lemma_len_fits(b);
    }
    ImageFileHeader {
        machine: u16_at(b, off),
        number_of_sections: u16_at(b, off + 2),
        time_date_stamp: u32_at(b, off + 4),
        pointer_to_symbol_table: u32_at(b, off + 8),
        number_of_symbols: u32_at(b, off + 12),
        size_of_optional_header: u16_at(b, off + 16),
        characteristics: u16_at(b, off + 18),
    }
}

/// The PE32 optional header.
#[derive(Clone, Copy, Debug, PartialEq, Eq, Structural)]
pub struct ImageOptionalHeader {
    pub magic: u16,
    pub major_linker_version: u8,
    pub minor_linker_version: u8,
    pub size_of_code: u32,
    pub size_of_initialized_data: u32,
    pub size_of_uninitialized_data: u32,
    pub address_of_entry_point: u32,
    pub base_of_code: u32,
    pub base_of_data: u32,
    pub image_base: u32,
    pub section_alignment: u32,
    pub file_alignment: u32,
    pub major_operating_system_version: u16,
    pub minor_operating_system_version: u16,
    pub major_image_version: u16,
    pub minor_image_version: u16,
    pub major_subsystem_version: u16,
    pub minor_subsystem_version: u16,
    pub win32_version_value: u32,
    pub size_of_image: u32,
    pub size_of_headers: u32,
    pub check_sum: u32,
    pub subsystem: u16,
    pub dll_characteristics: u16,
    pub size_of_stack_reserve: u32,
    pub size_of_stack_commit: u32,
    pub size_of_heap_reserve: u32,
    pub size_of_heap_commit: u32,
    pub loader_flags: u32,
    pub number_of_rva_and_sizes: u32,
    pub data_directories: DataDirectories,
}

/// The PE32 optional header at `off`.
pub open spec fn optional_header32_at(b: Seq<u8>, off: int) -> ImageOptionalHeader {
    ImageOptionalHeader {
        magic: (le16(b, off) as u16),
        major_linker_version: b[off + 2],
        minor_linker_version: b[off + 3],
        size_of_code: (le32(b, off + 4) as u32),
        size_of_initialized_data: (le32(b, off + 8) as u32),
        size_of_uninitialized_data: (le32(b, off + 12) as u32),
        address_of_entry_point: (le32(b, off + 16) as u32),
        base_of_code: (le32(b, off + 20) as u32),
        base_of_data: (le32(b, off + 24) as u32),
        image_base: (le32(b, off + 28) as u32),
        section_alignment: (le32(b, off + 32) as u32),
        file_alignment: (le32(b, off + 36) as u32),
        major_operating_system_version: (le16(b, off + 40) as u16),
        minor_operating_system_version: (le16(b, off + 42) as u16),
        major_image_version: (le16(b, off + 44) as u16),
        minor_image_version: (le16(b, off + 46) as u16),
        major_subsystem_version: (le16(b, off + 48) as u16),
        minor_subsystem_version: (le16(b, off + 50) as u16),
        win32_version_value: (le32(b, off + 52) as u32),
        size_of_image: (le32(b, off + 56) as u32),
        size_of_headers: (le32(b, off + 60) as u32),
        check_sum: (le32(b, off + 64) as u32),
        subsystem: (le16(b, off + 68) as u16),
        dll_characteristics: (le16(b, off + 70) as u16),
        size_of_stack_reserve: (le32(b, off + 72) as u32),
        size_of_stack_commit: (le32(b, off + 76) as u32),
        size_of_heap_reserve: (le32(b, off + 80) as u32),
        size_of_heap_commit: (le32(b, off + 84) as u32),
        loader_flags: (le32(b, off + 88) as u32),
        number_of_rva_and_sizes: (le32(b, off + 92) as u32),
        data_directories: data_directories_at(b, off + 96),
    }
}

/// Decodes the PE32 optional header at `off`.
pub fn read_optional_header32(b: &[u8], off: usize) -> (r: ImageOptionalHeader)
    requires
        in_bounds(b@, off as int, 224),
    ensures
        r == optional_header32_at(b@, off as int),
{
    proof {
        lemma_len_fits(b);
    }
    let data_directories = read_data_directories(b, off + 96);
    ImageOptionalHeader {
        magic: u16_at(b, off),
        major_linker_version: b[off + 2],
        minor_linker_version: b[off + 3],
        size_of_code: u32_at(b, off + 4),
        size_of_initialized_data: u32_at(b, off + 8),
        size_of_uninitialized_data: u32_at(b, off + 12),
        address_of_entry_point: u32_at(b, off + 16),
        base_of_code: u32_at(b, off + 20),
        base_of_data: u32_at(b, off + 24),
        image_base: u32_at(b, off + 28),
        section_alignment: u32_at(b, off + 32),
        file_alignment: u32_at(b, off + 36),
        major_operating_system_version: u16_at(b, off + 40),
        minor_operating_system_version: u16_at(b, off + 42),
        major_image_version: u16_at(b, off + 44),
        minor_image_version: u16_at(b, off + 46),
        major_subsystem_version: u16_at(b, off + 48),
        minor_subsystem_version: u16_at(b, off + 50),
        win32_version_value: u32_at(b, off + 52),
        size_of_image: u32_at(b, off + 56),
        size_of_headers: u32_at(b, off + 60),
        check_sum: u32_at(b, off + 64),
        subsystem: u16_at(b, off + 68),
        dll_characteristics: u16_at(b, off + 70),
        size_of_stack_reserve: u32_at(b, off + 72),
        size_of_stack_commit: u32_at(b, off + 76),
        size_of_heap_reserve: u32_at(b, off + 80),
        size_of_heap_commit: u32_at(b, off + 84),
        loader_flags: u32_at(b, off + 88),
        number_of_rva_and_sizes: u32_at(b, off + 92),
        data_directories,
    }
}

/// The PE32+ optional header.
#[derive(Clone, Copy, Debug, PartialEq, Eq, Structural)]
pub struct ImageOptionalHeader64 {
    pub magic: u16,
    pub major_linker_version: u8,
    pub minor_linker_version: u8,
    pub size_of_code: u32,
    pub size_of_initialized_data: u32,
    pub size_of_uninitialized_data: u32,
    pub address_of_entry_point: u32,
    pub base_of_code: u32,
    pub image_base: u64,
    pub section_alignment: u32,
    pub file_alignment: u32,
    pub major_operating_system_version: u16,
    pub minor_operating_system_version: u16,
    pub major_image_version: u16,
    pub minor_image_version: u16,
    pub major_subsystem_version: u16,
    pub minor_subsystem_version: u16,
    pub win32_version_value: u32,
    pub size_of_image: u32,
    pub size_of_headers: u32,
    pub check_sum: u32,
    pub subsystem: u16,
    pub dll_characteristics: u16,
    pub size_of_stack_reserve: u64,
    pub size_of_stack_commit: u64,
    pub size_of_heap_reserve: u64,
    pub size_of_heap_commit: u64,
    pub loader_flags: u32,
    pub number_of_rva_and_sizes: u32,
    pub data_directories: DataDirectories,
}

/// The PE32+ optional header at `off`.
pub open spec fn optional_header64_at(b: Seq<u8>, off: int) -> ImageOptionalHeader64 {
    ImageOptionalHeader64 {
        magic: (le16(b, off) as u16),
        major_linker_version: b[off + 2],
        minor_linker_version: b[off + 3],
        size_of_code: (le32(b, off + 4) as u32),
        size_of_initialized_data: (le32(b, off + 8) as u32),
        size_of_uninitialized_data: (le32(b, off + 12) as u32),
        address_of_entry_point: (le32(b, off + 16) as u32),
        base_of_code: (le32(b, off + 20) as u32),
        image_base: (le64(b, off + 24) as u64),
        section_alignment: (le32(b, off + 32) as u32),
        file_alignment: (le32(b, off + 36) as u32),
        major_operating_system_version: (le16(b, off + 40) as u16),
        minor_operating_system_version: (le16(b, off + 42) as u16),
        major_image_version: (le16(b, off + 44) as u16),
        minor_image_version: (le16(b, off + 46) as u16),
        major_subsystem_version: (le16(b, off + 48) as u16),
        minor_subsystem_version: (le16(b, off + 50) as u16),
        win32_version_value: (le32(b, off + 52) as u32),
        size_of_image: (le32(b, off + 56) as u32),
        size_of_headers: (le32(b, off + 60) as u32),
        check_sum: (le32(b, off + 64) as u32),
        subsystem: (le16(b, off + 68) as u16),
        dll_characteristics: (le16(b, off + 70) as u16),
        size_of_stack_reserve: (le64(b, off + 72) as u64),
        size_of_stack_commit: (le64(b, off + 80) as u64),
        size_of_heap_reserve: (le64(b, off + 88) as u64),
        size_of_heap_commit: (le64(b, off + 96) as u64),
        loader_flags: (le32(b, off + 104) as u32),
        number_of_rva_and_sizes: (le32(b, off + 108) as u32),
        data_directories: data_directories_at(b, off + 112),
    }
}

/// Decodes the PE32+ optional header at `off`.
pub fn read_optional_header64(b: &[u8], off: usize) -> (r: ImageOptionalHeader64)
    requires
        in_bounds(b@, off as int, 240),
    ensures
        r == optional_header64_at(b@, off as int),
{
    proof {
        lemma_len_fits(b);
    }
    let data_directories = read_data_directories(b, off + 112);
    ImageOptionalHeader64 {
        magic: u16_at(b, off),
        major_linker_version: b[off + 2],
        minor_linker_version: b[off + 3],
        size_of_code: u32_at(b, off + 4),
        size_of_initialized_data: u32_at(b, off + 8),
        size_of_uninitialized_data: u32_at(b, off + 12),
        address_of_entry_point: u32_at(b, off + 16),
        base_of_code: u32_at(b, off + 20),
        image_base: u64_at(b, off + 24),
        section_alignment: u32_at(b, off + 32),
        file_alignment: u32_at(b, off + 36),
        major_operating_system_version: u16_at(b, off + 40),
        minor_operating_system_version: u16_at(b, off + 42),
        major_image_version: u16_at(b, off + 44),
        minor_image_version: u16_at(b, off + 46),
        major_subsystem_version: u16_at(b, off + 48),
        minor_subsystem_version: u16_at(b, off + 50),
        win32_version_value: u32_at(b, off + 52),
        size_of_image: u32_at(b, off + 56),
        size_of_headers: u32_at(b, off + 60),
        check_sum: u32_at(b, off + 64),
        subsystem: u16_at(b, off + 68),
        dll_characteristics: u16_at(b, off + 70),
        size_of_stack_reserve: u64_at(b, off + 72),
        size_of_stack_commit: u64_at(b, off + 80),
        size_of_heap_reserve: u64_at(b, off + 88),
        size_of_heap_commit: u64_at(b, off + 96),
        loader_flags: u32_at(b, off + 104),
        number_of_rva_and_sizes: u32_at(b, off + 108),
        data_directories,
    }
}

impl ImageOptionalHeader {
    /// The import data directory.
    pub fn import_table(&self) -> (r: ImageDataDirectory)
        ensures
            r == self.data_directories.import_table,
    {
        self.data_directories.import_table
    }

    /// The combined size of the headers, rounded up to the file alignment.
    pub fn size_of_headers(&self) -> (r: u32)
        ensures
            r == self.size_of_headers,
    {
        self.size_of_headers
    }
}

impl ImageOptionalHeader64 {
    /// The import data directory.
    pub fn import_table(&self) -> (r: ImageDataDirectory)
        ensures
            r == self.data_directories.import_table,
    {
        self.data_directories.import_table
    }

    /// The combined size of the headers, rounded up to the file alignment.
    pub fn size_of_headers(&self) -> (r: u32)
        ensures
            r == self.size_of_headers,
    {
        self.size_of_headers
    }
}

/// The optional header in one of its two layouts, chosen by its magic.
#[derive(Clone, Copy, Debug, PartialEq, Eq, Structural)]
pub enum OptionalHeader {
    /// Magic `0x10B`, 32-bit fields.
    Pe32(ImageOptionalHeader),
    /// Magic `0x20B`, 64-bit image base and stack and heap sizes.
    Pe32Plus(ImageOptionalHeader64),
}

impl OptionalHeader {
    /// The sixteen data directories of either layout.
    pub open spec fn spec_data_directories(&self) -> DataDirectories {
        match self {
            OptionalHeader::Pe32(h) => h.data_directories,
            OptionalHeader::Pe32Plus(h) => h.data_directories,
        }
    }

    /// Size in bytes of a thunk entry in images of this layout.
    pub open spec fn spec_pointer_width(&self) -> u64 {
        match self {
            OptionalHeader::Pe32(_) => 4,
            OptionalHeader::Pe32Plus(_) => 8,
        }
    }

    /// The sixteen data directories.
    pub fn data_directories(&self) -> (r: DataDirectories)
        ensures
            r == self.spec_data_directories(),
    {
        match self {
            OptionalHeader::Pe32(h) => h.data_directories,
            OptionalHeader::Pe32Plus(h) => h.data_directories,
        }
    }

    /// The import data directory.
    pub fn import_table(&self) -> (r: ImageDataDirectory)
        ensures
            r == self.spec_data_directories().import_table,
    {
        match self {
            OptionalHeader::Pe32(h) => h.import_table(),
            OptionalHeader::Pe32Plus(h) => h.import_table(),
        }
    }

    /// The combined size of the headers, rounded up to the file alignment.
    pub fn size_of_headers(&self) -> (r: u32)
        ensures
            r == (match self {
                OptionalHeader::Pe32(h) => h.size_of_headers,
                OptionalHeader::Pe32Plus(h) => h.size_of_headers,
            }),
    {
        match self {
            OptionalHeader::Pe32(h) => h.size_of_headers(),
            OptionalHeader::Pe32Plus(h) => h.size_of_headers(),
        }
    }

    /// Size in bytes of a thunk entry: 4 for PE32, 8 for PE32+.
    pub fn pointer_width(&self) -> (r: u64)
        ensures
            r == self.spec_pointer_width(),
    {
        match self {
            OptionalHeader::Pe32(_) => 4,
            OptionalHeader::Pe32Plus(_) => 8,
        }
    }
}

/// The decoded header chain and where the section table starts.
#[derive(Clone, Copy, Debug, PartialEq, Eq, Structural)]
pub struct PeHeaders {
    pub file_header: ImageFileHeader,
    pub optional_header: OptionalHeader,
    /// File offset just past the optional header, by its declared size.
    pub section_table_offset: u64,
}

/// The optional header at `off` whose declared size is `size`, when its magic
/// agrees with the layout of that size.
pub open spec fn optional_header_at(b: Seq<u8>, off: int, size: u16) -> Option<OptionalHeader> {
    if size == PE32_HEADER_SIZE && le16(b, off) == PE32_MAGIC {
        Some(OptionalHeader::Pe32(optional_header32_at(b, off)))
    } else if size == PE32_PLUS_HEADER_SIZE && le16(b, off) == PE32_PLUS_MAGIC {
        Some(OptionalHeader::Pe32Plus(optional_header64_at(b, off)))
    } else {
        None
    }
}

/// The header chain of the image `b`: DOS stub, PE signature, COFF file header
/// and optional header.
#[verifier::opaque]
pub open spec fn headers_at(b: Seq<u8>) -> Result<PeHeaders, LoadError> {
    if b.len() < DOS_HEADER_SIZE {
        Err(LoadError::OutOfBounds)
    } else if le16(b, 0) != DOS_SIGNATURE {
        Err(LoadError::BadDosSignature)
    } else {
        let pe = le32(b, E_LFANEW_OFFSET as int);
        if !in_bounds(b, pe, 4) {
            Err(LoadError::OutOfBounds)
        } else if le32(b, pe) != PE_SIGNATURE {
            Err(LoadError::BadPeSignature)
        } else if !in_bounds(b, pe + 4, FILE_HEADER_SIZE as int) {
            Err(LoadError::OutOfBounds)
        } else {
            let file_header = file_header_at(b, pe + 4);
            let opt = pe + 4 + FILE_HEADER_SIZE;
            let size = file_header.size_of_optional_header;
            if size != PE32_HEADER_SIZE && size != PE32_PLUS_HEADER_SIZE {
                Err(LoadError::UnknownOptionalHeaderLayout)
            } else if !in_bounds(b, opt, size as int) {
                Err(LoadError::OutOfBounds)
            } else {
                match optional_header_at(b, opt, size) {
                    None => Err(LoadError::UnknownOptionalHeaderLayout),
                    Some(optional_header) => Ok(
                        PeHeaders {
                            file_header,
                            optional_header,
                            section_table_offset: (opt + size) as u64,
                        },
                    ),
                }
            }
        }
    }
}

/// Decodes the header chain of the image `b`.
pub fn parse_headers(b: &[u8]) -> (r: Result<PeHeaders, LoadError>)
    ensures
        r == headers_at(b@),
{
    reveal(headers_at);
    let len = b.len() as u64;
    if len < DOS_HEADER_SIZE {
        return Err(LoadError::OutOfBounds);
    }
    if u16_at(b, 0) != DOS_SIGNATURE {
        return Err(LoadError::BadDosSignature);
    }
    let pe = u32_at(b, E_LFANEW_OFFSET as usize) as u64;
    let signature = read_u32(b, pe)?;
    if signature != PE_SIGNATURE {
        return Err(LoadError::BadPeSignature);
    }
    let fh_off = pe + 4;
    if fh_off > len || FILE_HEADER_SIZE > len - fh_off {
        return Err(LoadError::OutOfBounds);
    }
    let file_header = read_file_header(b, fh_off as usize);
    let opt = fh_off + FILE_HEADER_SIZE;
    let size = file_header.size_of_optional_header;
    if size != PE32_HEADER_SIZE && size != PE32_PLUS_HEADER_SIZE {
        return Err(LoadError::UnknownOptionalHeaderLayout);
    }
    if opt > len || size as u64 > len - opt {
        return Err(LoadError::OutOfBounds);
    }
    let magic = u16_at(b, opt as usize);
    let optional_header = if size == PE32_HEADER_SIZE && magic == PE32_MAGIC {
        OptionalHeader::Pe32(read_optional_header32(b, opt as usize))
    } else if size == PE32_PLUS_HEADER_SIZE && magic == PE32_PLUS_MAGIC {
        OptionalHeader::Pe32Plus(read_optional_header64(b, opt as usize))
    } else {
        return Err(LoadError::UnknownOptionalHeaderLayout);
    };
    Ok(PeHeaders { file_header, optional_header, section_table_offset: opt + size as u64 })
}

} // verus!
