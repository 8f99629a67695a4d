//! Integers in a byte region, least significant byte first.
//!
//! The kernel reads and writes the fields of a control message in the byte
//! order of the machine. This module fixes that order as little-endian, the
//! order of the 64-bit Linux targets this crate is written for.

use vstd::prelude::*;

verus! {

/// The four bytes of `value`, least significant first.
pub open spec fn u32_bytes(value: u32) -> Seq<u8> {
    seq![
        (value % 0x100) as u8,
        (value / 0x100 % 0x100) as u8,
        (value / 0x1_0000 % 0x100) as u8,
        (value / 0x100_0000) as u8,
    ]
}

/// The number whose four bytes start at `at`.
pub open spec fn u32_at(bytes: Seq<u8>, at: int) -> u32 {
    (bytes[at] + bytes[at + 1] * 0x100 + bytes[at + 2] * 0x1_0000 + bytes[at + 3]
        * 0x100_0000) as u32
}

/// The bit pattern of a signed number, read as an unsigned one.
pub open spec fn unsigned(value: i32) -> u32 {
    if value >= 0 {
        value as u32
    } else {
        (value + 0x1_0000_0000) as u32
    }
}

/// The signed number with this bit pattern.
pub open spec fn signed(pattern: u32) -> i32 {
    if pattern < 0x8000_0000 {
        pattern as i32
    } else {
        (pattern - 0x1_0000_0000) as i32
    }
}

/// The four bytes of a signed number, least significant first.
pub open spec fn i32_bytes(value: i32) -> Seq<u8> {
    u32_bytes(unsigned(value))
}

/// The signed number whose four bytes start at `at`.
pub open spec fn i32_at(bytes: Seq<u8>, at: int) -> i32 {
    signed(u32_at(bytes, at))
}

/// The eight bytes of `value`, least significant first.
pub open spec fn u64_bytes(value: u64) -> Seq<u8> {
    u32_bytes((value % 0x1_0000_0000) as u32) + u32_bytes((value / 0x1_0000_0000) as u32)
}

/// The number whose eight bytes start at `at`.
pub open spec fn u64_at(bytes: Seq<u8>, at: int) -> u64 {
    (u32_at(bytes, at) + u32_at(bytes, at + 4) * 0x1_0000_0000) as u64
}

/// `bytes` with `patch` written over it from `at` on.
pub open spec fn overwritten(bytes: Seq<u8>, at: int, patch: Seq<u8>) -> Seq<u8> {
    bytes.subrange(0, at) + patch + bytes.subrange(at + patch.len(), bytes.len() as int)
}

/// Where the four bytes of a number stand, that number is read.
pub proof fn lemma_u32_read_back(bytes: Seq<u8>, at: int, value: u32)
    requires
        0 <= at,
        at + 4 <= bytes.len(),
        bytes.subrange(at, at + 4) == u32_bytes(value),
    ensures
        u32_at(bytes, at) == value,
{
    let part = bytes.subrange(at, at + 4);
    assert(bytes[at] == part[0]);
    assert(bytes[at + 1] == part[1]);
    assert(bytes[at + 2] == part[2]);
    assert(bytes[at + 3] == part[3]);
}

/// Where the four bytes of a signed number stand, that number is read.
pub proof fn lemma_i32_read_back(bytes: Seq<u8>, at: int, value: i32)
    requires
        0 <= at,
        at + 4 <= bytes.len(),
        bytes.subrange(at, at + 4) == i32_bytes(value),
    ensures
        i32_at(bytes, at) == value,
{
    lemma_u32_read_back(bytes, at, unsigned(value));
}

/// Where the eight bytes of a number stand, that number is read.
pub proof fn lemma_u64_read_back(bytes: Seq<u8>, at: int, value: u64)
    requires
        0 <= at,
        at + 8 <= bytes.len(),
        bytes.subrange(at, at + 8) == u64_bytes(value),
    ensures
        u64_at(bytes, at) == value,
{
    let low = (value % 0x1_0000_0000) as u32;
    let high = (value / 0x1_0000_0000) as u32;
    let part = bytes.subrange(at, at + 8);
    assert(bytes.subrange(at, at + 4) =~= part.subrange(0, 4));
    assert(bytes.subrange(at + 4, at + 8) =~= part.subrange(4, 8));
    assert(part.subrange(0, 4) =~= u32_bytes(low));
    assert(part.subrange(4, 8) =~= u32_bytes(high));
    lemma_u32_read_back(bytes, at, low);
    lemma_u32_read_back(bytes, at + 4, high);
}

/// Reads the number whose four bytes start at `at`.
pub(crate) fn read_u32(bytes: &[u8], at: usize) -> (value: u32)
    requires
        at + 4 <= bytes@.len(),
    ensures
        value == u32_at(bytes@, at as int),
{
    let b0: u32 = bytes[at] as u32;
    let b1: u32 = bytes[at + 1] as u32;
    let b2: u32 = bytes[at + 2] as u32;
    let b3: u32 = bytes[at + 3] as u32;
    b0 + b1 * 0x100 + b2 * 0x1_0000 + b3 * 0x100_0000
}

/// Reads the signed number whose four bytes start at `at`.
pub(crate) fn read_i32(bytes: &[u8], at: usize) -> (value: i32)
    requires
        at + 4 <= bytes@.len(),
    ensures
        value == i32_at(bytes@, at as int),
{
    let pattern: u32 = read_u32(bytes, at);
    if pattern < 0x8000_0000 {
        pattern as i32
    } else {
        (pattern as i64 - 0x1_0000_0000) as i32
    }
}

/// Reads the number whose eight bytes start at `at`.
pub(crate) fn read_u64(bytes: &[u8], at: usize) -> (value: u64)
    requires
        at + 8 <= bytes@.len(),
    ensures
        value == u64_at(bytes@, at as int),
{
    assert(at + 8 <= bytes.len());
    let low: u64 = read_u32(bytes, at) as u64;
    let high: u64 = read_u32(bytes, at + 4) as u64;
    low + high * 0x1_0000_0000
}

} // verus!
