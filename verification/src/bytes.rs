use vstd::prelude::*;
use vstd::utf8::{valid_utf8, decode_utf8};

verus! {

/// The 16-bit value of the two bytes at `i`, little- or big-endian.
pub open spec fn rd16(s: Seq<u8>, i: int, le: bool) -> u16 {
    if le {
        (s[i] + s[i + 1] * 0x100) as u16
    } else {
        (s[i + 1] + s[i] * 0x100) as u16
    }
}

/// The 32-bit value of the four bytes at `i`, little- or big-endian.
pub open spec fn rd32(s: Seq<u8>, i: int, le: bool) -> u32 {
    if le {
        (s[i] + s[i + 1] * 0x100 + s[i + 2] * 0x1_0000 + s[i + 3] * 0x100_0000) as u32
    } else {
        (s[i + 3] + s[i + 2] * 0x100 + s[i + 1] * 0x1_0000 + s[i] * 0x100_0000) as u32
    }
}

/// The 64-bit value of the eight bytes at `i`, little- or big-endian.
pub open spec fn rd64(s: Seq<u8>, i: int, le: bool) -> u64 {
    if le {
        (s[i] + s[i + 1] * 0x100 + s[i + 2] * 0x1_0000 + s[i + 3] * 0x100_0000
            + s[i + 4] * 0x1_0000_0000 + s[i + 5] * 0x100_0000_0000
            + s[i + 6] * 0x1_0000_0000_0000 + s[i + 7] * 0x100_0000_0000_0000) as u64
    } else {
        (s[i + 7] + s[i + 6] * 0x100 + s[i + 5] * 0x1_0000 + s[i + 4] * 0x100_0000
            + s[i + 3] * 0x1_0000_0000 + s[i + 2] * 0x100_0000_0000
            + s[i + 1] * 0x1_0000_0000_0000 + s[i] * 0x100_0000_0000_0000) as u64
    }
}

pub fn read_u16(s: &[u8], i: usize, le: bool) -> (r: u16)
    requires
        i + 2 <= s@.len(),
    ensures
        r == rd16(s@, i as int, le),
{
    let b0 = s[i] as u16;
    let b1 = s[i + 1] as u16;
    if le {
        b0 + b1 * 0x100
    } else {
        b1 + b0 * 0x100
    }
}

pub fn read_u32(s: &[u8], i: usize, le: bool) -> (r: u32)
    requires
        i + 4 <= s@.len(),
    ensures
        r == rd32(s@, i as int, le),
{
    let b0 = s[i] as u32;
    let b1 = s[i + 1] as u32;
    let b2 = s[i + 2] as u32;
    let b3 = s[i + 3] as u32;
    if le {
        b0 + b1 * 0x100 + b2 * 0x1_0000 + b3 * 0x100_0000
    } else {
        b3 + b2 * 0x100 + b1 * 0x1_0000 + b0 * 0x100_0000
    }
}

pub fn read_u64(s: &[u8], i: usize, le: bool) -> (r: u64)
    requires
        i + 8 <= s@.len(),
    ensures
        r == rd64(s@, i as int, le),
{
    let b0 = s[i] as u64;
    let b1 = s[i + 1] as u64;
    let b2 = s[i + 2] as u64;
    let b3 = s[i + 3] as u64;
    let b4 = s[i + 4] as u64;
    let b5 = s[i + 5] as u64;
    let b6 = s[i + 6] as u64;
    let b7 = s[i + 7] as u64;
    if le {
        b0 + b1 * 0x100 + b2 * 0x1_0000 + b3 * 0x100_0000 + b4 * 0x1_0000_0000
            + b5 * 0x100_0000_0000 + b6 * 0x1_0000_0000_0000 + b7 * 0x100_0000_0000_0000
    } else {
        b7 + b6 * 0x100 + b5 * 0x1_0000 + b4 * 0x100_0000 + b3 * 0x1_0000_0000
            + b2 * 0x100_0000_0000 + b1 * 0x1_0000_0000_0000 + b0 * 0x100_0000_0000_0000
    }
}

pub fn read_u16_at(s: &[u8], i: u64, le: bool) -> (r: u16)
    requires
        i + 2 <= s@.len(),
    ensures
        r == rd16(s@, i as int, le),
{
    let _n: usize = s.len();
    read_u16(s, i as usize, le)
}

pub fn read_u32_at(s: &[u8], i: u64, le: bool) -> (r: u32)
    requires
        i + 4 <= s@.len(),
    ensures
        r == rd32(s@, i as int, le),
{
    let _n: usize = s.len();
    read_u32(s, i as usize, le)
}

pub fn read_u64_at(s: &[u8], i: u64, le: bool) -> (r: u64)
    requires
        i + 8 <= s@.len(),
    ensures
        r == rd64(s@, i as int, le),
{
    let _n: usize = s.len();
    read_u64(s, i as usize, le)
}

/// The first index in `[i, limit)` that holds a NUL byte.
pub open spec fn find_nul(s: Seq<u8>, i: int, limit: int) -> Option<int>
    decreases limit - i,
{
    if i < 0 || i >= limit {
        None
    } else if s[i] == 0 {
        Some(i)
    } else {
        find_nul(s, i + 1, limit)
    }
}

pub fn scan_nul(s: &[u8], start: usize, limit: usize) -> (r: Option<usize>)
    requires
        limit <= s@.len(),
    ensures
        r matches Some(j) ==> find_nul(s@, start as int, limit as int) == Some(j as int)
            && start <= j < limit,
        r is None ==> find_nul(s@, start as int, limit as int) is None,
{
    let mut i = start;
    if i >= limit {
        return None;
    }
    while i < limit
        invariant
            start <= i <= limit,
            limit <= s@.len(),
            find_nul(s@, start as int, limit as int) == find_nul(s@, i as int, limit as int),
        decreases limit - i,
    {
        if s[i] == 0 {
            return Some(i);
        }
        i = i + 1;
    }
    None
}

/// The characters of the NUL-terminated UTF-8 string beginning at `start` and
/// ending before `limit`; nothing when no NUL is found or the bytes are not
/// valid UTF-8.
pub open spec fn cstr_at(s: Seq<u8>, start: int, limit: int) -> Option<Seq<char>> {
    match find_nul(s, start, limit) {
        Some(j) => {
            if valid_utf8(s.subrange(start, j)) {
                Some(decode_utf8(s.subrange(start, j)))
            } else {
                None
            }
        },
        None => None,
    }
}

/// Relies on core::str::from_utf8: it returns `Ok` exactly when the bytes are
/// valid UTF-8, and the resulting string's characters are the scalar values
/// those bytes decode to.
#[verifier::external_body]
fn utf8_to_string(b: &[u8]) -> (r: Option<String>)
    ensures
        r matches Some(t) ==> valid_utf8(b@) && t@ == decode_utf8(b@),
        r is None ==> !valid_utf8(b@),
{
    match core::str::from_utf8(b) {
        Ok(t) => Some(t.to_owned()),
        Err(_) => None,
    }
}

/// Reads the NUL-terminated UTF-8 string beginning at `start`, looking for the
/// terminator before `limit`.
pub fn read_cstr(s: &[u8], start: usize, limit: usize) -> (r: Option<String>)
    requires
        limit <= s@.len(),
    ensures
        r matches Some(t) ==> cstr_at(s@, start as int, limit as int) == Some(t@),
        r is None ==> cstr_at(s@, start as int, limit as int) is None,
{
    match scan_nul(s, start, limit) {
        Some(j) => {
            let name = &s[start..j];
            assert(name@ == s@.subrange(start as int, j as int));
            utf8_to_string(name)
        },
        None => None,
    }
}

} // verus!
