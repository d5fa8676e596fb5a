use vstd::prelude::*;

use crate::error::LoadError;

verus! {

/// The little-endian value of the two bytes at `off`.
pub open spec fn le16(b: Seq<u8>, off: int) -> int {
    b[off] + b[off + 1] * 0x100
}

/// The little-endian value of the four bytes at `off`.
pub open spec fn le32(b: Seq<u8>, off: int) -> int {
    le16(b, off) + le16(b, off + 2) * 0x1_0000
}

/// The little-endian value of the eight bytes at `off`.
pub open spec fn le64(b: Seq<u8>, off: int) -> int {
    le32(b, off) + le32(b, off + 4) * 0x1_0000_0000
}

/// A slice holds no more than `usize::MAX` bytes.
pub proof fn lemma_len_fits(b: &[u8])
    ensures
        b@.len() <= usize::MAX,
{
    assert(b.len() == b@.len());
}

/// True when `len` bytes starting at `off` lie inside `b`.
pub open spec fn in_bounds(b: Seq<u8>, off: int, len: int) -> bool {
    0 <= off && off + len <= b.len()
}

/// The `u16` at `off`, which the caller has shown to be in bounds.
pub fn u16_at(b: &[u8], off: usize) -> (r: u16)
    requires
        in_bounds(b@, off as int, 2),
    ensures
        r == le16(b@, off as int),
{
    b[off] as u16 + (b[off + 1] as u16) * 0x100
}

/// The `u32` at `off`, which the caller has shown to be in bounds.
pub fn u32_at(b: &[u8], off: usize) -> (r: u32)
    requires
        in_bounds(b@, off as int, 4),
    ensures
        r == le32(b@, off as int),
{
    let lo = u16_at(b, off);
    proof {
        lemma_len_fits(b);
    }
    let hi = u16_at(b, off + 2);
    lo as u32 + (hi as u32) * 0x1_0000
}

/// The `u64` at `off`, which the caller has shown to be in bounds.
pub fn u64_at(b: &[u8], off: usize) -> (r: u64)
    requires
        in_bounds(b@, off as int, 8),
    ensures
        r == le64(b@, off as int),
{
    let lo = u32_at(b, off);
    proof {
        lemma_len_fits(b);
    }
    let hi = u32_at(b, off + 4);
    lo as u64 + (hi as u64) * 0x1_0000_0000
}

/// Reads the little-endian `u16` at `off`.
pub fn read_u16(b: &[u8], off: u64) -> (r: Result<u16, LoadError>)
    ensures
        in_bounds(b@, off as int, 2) ==> r == Ok::<u16, LoadError>(le16(b@, off as int) as u16),
        !in_bounds(b@, off as int, 2) ==> r == Err::<u16, LoadError>(LoadError::OutOfBounds),
{
    if off > b.len() as u64 || 2 > b.len() as u64 - off {
        return Err(LoadError::OutOfBounds);
    }
    Ok(u16_at(b, off as usize))
}

/// Reads the little-endian `u32` at `off`.
pub fn read_u32(b: &[u8], off: u64) -> (r: Result<u32, LoadError>)
    ensures
        in_bounds(b@, off as int, 4) ==> r == Ok::<u32, LoadError>(le32(b@, off as int) as u32),
        !in_bounds(b@, off as int, 4) ==> r == Err::<u32, LoadError>(LoadError::OutOfBounds),
{
    if off > b.len() as u64 || 4 > b.len() as u64 - off {
        return Err(LoadError::OutOfBounds);
    }
    Ok(u32_at(b, off as usize))
}

/// Reads the little-endian `u64` at `off`.
pub fn read_u64(b: &[u8], off: u64) -> (r: Result<u64, LoadError>)
    ensures
        in_bounds(b@, off as int, 8) ==> r == Ok::<u64, LoadError>(le64(b@, off as int) as u64),
        !in_bounds(b@, off as int, 8) ==> r == Err::<u64, LoadError>(LoadError::OutOfBounds),
{
    if off > b.len() as u64 || 8 > b.len() as u64 - off {
        return Err(LoadError::OutOfBounds);
    }
    Ok(u64_at(b, off as usize))
}

/// `j` is the first zero byte of `b` at or after `off` and before `end`.
pub open spec fn is_first_zero(b: Seq<u8>, off: int, end: int, j: int) -> bool {
    &&& off <= j < end
    &&& b[j] == 0
    &&& forall|k: int| off <= k < j ==> b[k] != 0
}

/// Where a scan of at most `max_scan` bytes from `off` stops.
pub open spec fn scan_end(b: Seq<u8>, off: int, max_scan: int) -> int {
    if off + max_scan < b.len() { off + max_scan } else { b.len() as int }
}

/// The zero-terminated string at `off`, looked for in at most `max_scan` bytes.
pub open spec fn cstring_at(b: Seq<u8>, off: int, max_scan: int) -> Result<Seq<u8>, LoadError> {
    let end = scan_end(b, off, max_scan);
    if off < 0 || off > b.len() {
        Err(LoadError::OutOfBounds)
    } else if exists|j: int| is_first_zero(b, off, end, j) {
        let j = choose|j: int| is_first_zero(b, off, end, j);
        Ok(b.subrange(off, j))
    } else {
        Err(LoadError::UnterminatedString)
    }
}

/// Reads the bytes from `off` up to, not including, the first zero byte,
/// scanning no more than `max_scan` bytes.
pub fn read_cstring(b: &[u8], off: u64, max_scan: u64) -> (r: Result<Vec<u8>, LoadError>)
    ensures
        r matches Ok(s) ==> cstring_at(b@, off as int, max_scan as int) == Ok::<Seq<u8>, LoadError>(s@),
        r matches Err(e) ==> cstring_at(b@, off as int, max_scan as int) == Err::<Seq<u8>, LoadError>(e),
{
    let len = b.len() as u64;
    if off > len {
        return Err(LoadError::OutOfBounds);
    }
    let end: u64 = if max_scan < len - off { off + max_scan } else { len };
    let ghost e = end as int;
    let mut out: Vec<u8> = Vec::new();
    let mut i: u64 = off;
    while i < end
        invariant
            off <= i <= end <= len,
            len == b@.len(),
            e == end,
            e == scan_end(b@, off as int, max_scan as int),
            out@ == b@.subrange(off as int, i as int),
            forall|k: int| off <= k < i ==> b@[k] != 0,
        decreases end - i,
    {
        let c = b[i as usize];
        if c == 0 {
            assert(is_first_zero(b@, off as int, e, i as int));
            let ghost j = choose|j: int| is_first_zero(b@, off as int, e, j);
            assert(j == i as int);
            return Ok(out);
        }
        out.push(c);
        i = i + 1;
        assert(out@ =~= b@.subrange(off as int, i as int));
    }
    assert(!exists|j: int| is_first_zero(b@, off as int, e, j));
    Err(LoadError::UnterminatedString)
}

} // verus!
