//! Big-endian integers at a byte offset.
use vstd::prelude::*;
use byteorder::{BigEndian, ReadBytesExt};

verus! {

/// The unsigned 16-bit big-endian integer whose first byte is `s[at]`.
pub open spec fn spec_be_u16(s: Seq<u8>, at: int) -> u16 {
    (s[at] as int * 0x100 + s[at + 1] as int) as u16
}

/// The unsigned 24-bit big-endian integer whose first byte is `s[at]`.
pub open spec fn spec_be_u24(s: Seq<u8>, at: int) -> u32 {
    (s[at] as int * 0x1_0000 + s[at + 1] as int * 0x100 + s[at + 2] as int) as u32
}

/// The unsigned 32-bit big-endian integer whose first byte is `s[at]`.
pub open spec fn spec_be_u32(s: Seq<u8>, at: int) -> u32 {
    (s[at] as int * 0x100_0000 + s[at + 1] as int * 0x1_0000 + s[at + 2] as int * 0x100
        + s[at + 3] as int) as u32
}

/// The unsigned 64-bit big-endian integer whose first byte is `s[at]`.
pub open spec fn spec_be_u64(s: Seq<u8>, at: int) -> u64 {
    (spec_be_u32(s, at) as int * 0x1_0000_0000 + spec_be_u32(s, at + 4) as int) as u64
}

/// The unsigned 128-bit big-endian integer whose first byte is `s[at]`.
pub open spec fn spec_be_u128(s: Seq<u8>, at: int) -> u128 {
    (spec_be_u64(s, at) as int * 0x1_0000_0000_0000_0000 + spec_be_u64(s, at + 8) as int) as u128
}

/// `ReadBytesExt::read_u8` on the bytes from `at` up to `end`: the byte there, or
/// nothing when `at` is the end.
#[verifier::external_body]
pub(crate) fn slice_u8(bytes: &[u8], at: usize, end: usize) -> (r: Option<u8>)
    requires
        at <= end <= bytes@.len(),
    ensures
        r == (if at + 1 <= end {
            Some(bytes@[at as int])
        } else {
            None
        }),
{
    let mut rest = &bytes[at..end];
    rest.read_u8().ok()
}

/// `ReadBytesExt::read_u16::<BigEndian>` on the bytes from `at` up to `end`: the
/// big-endian value of the next two bytes, or nothing when fewer are left.
#[verifier::external_body]
pub(crate) fn slice_be_u16(bytes: &[u8], at: usize, end: usize) -> (r: Option<u16>)
    requires
        at <= end <= bytes@.len(),
    ensures
        r == (if at + 2 <= end {
            Some(spec_be_u16(bytes@, at as int))
        } else {
            None
        }),
{
    let mut rest = &bytes[at..end];
    rest.read_u16::<BigEndian>().ok()
}

/// `ReadBytesExt::read_u32::<BigEndian>` on the bytes from `at` up to `end`: the
/// big-endian value of the next four bytes, or nothing when fewer are left.
#[verifier::external_body]
pub(crate) fn slice_be_u32(bytes: &[u8], at: usize, end: usize) -> (r: Option<u32>)
    requires
        at <= end <= bytes@.len(),
    ensures
        r == (if at + 4 <= end {
            Some(spec_be_u32(bytes@, at as int))
        } else {
            None
        }),
{
    let mut rest = &bytes[at..end];
    rest.read_u32::<BigEndian>().ok()
}

/// `ReadBytesExt::read_u64::<BigEndian>` on the bytes from `at` up to `end`: the
/// big-endian value of the next eight bytes, or nothing when fewer are left.
#[verifier::external_body]
pub(crate) fn slice_be_u64(bytes: &[u8], at: usize, end: usize) -> (r: Option<u64>)
    requires
        at <= end <= bytes@.len(),
    ensures
        r == (if at + 8 <= end {
            Some(spec_be_u64(bytes@, at as int))
        } else {
            None
        }),
{
    let mut rest = &bytes[at..end];
    rest.read_u64::<BigEndian>().ok()
}

} // verus!
