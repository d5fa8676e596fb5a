use vstd::prelude::*;

verus! {

/// Every way in which decoding an image can fail.
#[derive(Clone, Copy, Debug, PartialEq, Eq, Structural)]
pub enum LoadError {
    /// A read reaches past the end of the buffer.
    OutOfBounds,
    /// No terminating zero byte within the scan limit or before the buffer ends.
    UnterminatedString,
    /// The buffer does not start with `MZ`.
    BadDosSignature,
    /// The bytes at `e_lfanew` are not `PE\0\0`.
    BadPeSignature,
    /// The optional header's magic or declared size matches no known layout.
    UnknownOptionalHeaderLayout,
    /// No section covers a relative virtual address.
    RvaNotMapped,
    /// An import descriptor's library name cannot be located.
    InvalidImportDescriptor,
    /// A thunk entry refers to bytes that cannot be read.
    InvalidThunkEntry,
    /// A thunk entry refers to an empty import name.
    InvalidImportByName,
}

} // verus!
