//! Decoding of the Portable Executable header chain and resolution of its
//! import directory, from a raw byte buffer, with every offset checked.

pub mod error;
pub mod cursor;
pub mod headers;
pub mod sections;
pub mod imports;
pub mod thunks;
pub mod table;
pub mod image;
