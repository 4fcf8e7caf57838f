//! Byte order: how integers lie in memory and on the wire.
use vstd::prelude::*;

verus! {

/// The 16-bit little-endian integer at `i`.
pub open spec fn le16(s: Seq<u8>, i: int) -> int {
    s[i] + 0x100 * s[i + 1]
}

/// The 32-bit little-endian integer at `i`.
pub open spec fn le32(s: Seq<u8>, i: int) -> int {
    s[i] + 0x100 * s[i + 1] + 0x1_0000 * s[i + 2] + 0x100_0000 * s[i + 3]
}

/// The 32-bit big-endian integer at `i`.
pub open spec fn be32(s: Seq<u8>, i: int) -> int {
    s[i + 3] + 0x100 * s[i + 2] + 0x1_0000 * s[i + 1] + 0x100_0000 * s[i]
}

/// The two bytes of a 16-bit integer, least significant first.
pub open spec fn le16_bytes(v: u16) -> Seq<u8> {
    seq![(v % 0x100) as u8, (v / 0x100) as u8]
}

/// The four bytes of a 32-bit integer, least significant first.
pub open spec fn le32_bytes(v: u32) -> Seq<u8> {
    seq![
        (v % 0x100) as u8,
        (v / 0x100 % 0x100) as u8,
        (v / 0x1_0000 % 0x100) as u8,
        (v / 0x100_0000) as u8,
    ]
}

/// The four bytes of a 32-bit integer, most significant first.
pub open spec fn be32_bytes(v: u32) -> Seq<u8> {
    seq![
        (v / 0x100_0000) as u8,
        (v / 0x1_0000 % 0x100) as u8,
        (v / 0x100 % 0x100) as u8,
        (v % 0x100) as u8,
    ]
}

/// The two bytes of a 16-bit integer, most significant first.
pub open spec fn be16_bytes(v: u16) -> Seq<u8> {
    seq![(v / 0x100) as u8, (v % 0x100) as u8]
}

/// Reads the 16-bit little-endian integer at `i`.
pub fn read_le16(data: &[u8], i: usize) -> (r: u16)
    requires
        i + 2 <= data@.len(),
    ensures
        r == le16(data@, i as int),
{
    data[i] as u16 + data[i + 1] as u16 * 0x100
}

/// Reads the 32-bit little-endian integer at `i`.
pub fn read_le32(data: &[u8], i: usize) -> (r: u32)
    requires
        i + 4 <= data@.len(),
    ensures
        r == le32(data@, i as int),
{
    data[i] as u32 + data[i + 1] as u32 * 0x100 + data[i + 2] as u32 * 0x1_0000 + data[i + 3] as u32
        * 0x100_0000
}

/// Reads the 32-bit big-endian integer at `i`.
pub fn read_be32(data: &[u8], i: usize) -> (r: u32)
    requires
        i + 4 <= data@.len(),
    ensures
        r == be32(data@, i as int),
{
    data[i] as u32 * 0x100_0000 + data[i + 1] as u32 * 0x1_0000 + data[i + 2] as u32 * 0x100
        + data[i + 3] as u32
}

/// Appends a 32-bit integer, least significant byte first.
pub fn put_le32(out: &mut Vec<u8>, v: u32)
    ensures
        final(out)@ == old(out)@ + le32_bytes(v),
{
    out.push((v % 0x100) as u8);
    out.push((v / 0x100 % 0x100) as u8);
    out.push((v / 0x1_0000 % 0x100) as u8);
    out.push((v / 0x100_0000) as u8);
}

/// A little-endian integer reads back as what was written.
pub proof fn law_le32_round_trip(v: u32)
    ensures
        le32(le32_bytes(v), 0) == v,
        le32_bytes(v).len() == 4,
{
}

/// A big-endian integer reads back as what was written.
pub proof fn law_be32_round_trip(v: u32)
    ensures
        be32(be32_bytes(v), 0) == v,
        be32_bytes(v).len() == 4,
{
}

/// The bytes of a little-endian integer are its digits to the base 256, the least significant
/// first.
pub proof fn law_le_digits(s: Seq<u8>, i: int)
    ensures
        le16(s, i) % 0x100 == s[i],
        le16(s, i) / 0x100 == s[i + 1],
        le32(s, i) % 0x100 == s[i],
        le32(s, i) / 0x100 % 0x100 == s[i + 1],
        le32(s, i) / 0x1_0000 % 0x100 == s[i + 2],
        le32(s, i) / 0x100_0000 == s[i + 3],
{
    let top = s[i + 3] as int;
    let high = s[i + 2] + 0x100 * top;
    let rest = s[i + 1] + 0x100 * high;
    assert(le32(s, i) == s[i] + 0x100 * rest);
    assert(le32(s, i) / 0x100 == rest);
    assert(le32(s, i) / 0x1_0000 == high);
    assert(le32(s, i) / 0x100_0000 == top);
}

/// The bytes of a big-endian integer are its digits to the base 256, the most significant
/// first.
pub proof fn law_be_digits(s: Seq<u8>, i: int)
    ensures
        be32(s, i) % 0x100 == s[i + 3],
        be32(s, i) / 0x100 % 0x100 == s[i + 2],
        be32(s, i) / 0x1_0000 % 0x100 == s[i + 1],
        be32(s, i) / 0x100_0000 == s[i],
{
    let top = s[i] as int;
    let high = s[i + 1] + 0x100 * top;
    let rest = s[i + 2] + 0x100 * high;
    assert(be32(s, i) == s[i + 3] + 0x100 * rest);
    assert(be32(s, i) / 0x100 == rest);
    assert(be32(s, i) / 0x1_0000 == high);
    assert(be32(s, i) / 0x100_0000 == top);
}

/// What is written is the integer's digits to the base 256: their weighted sum is the integer.
pub proof fn law_written_digits(v: u32, w: u16)
    ensures
        le16_bytes(w).len() == 2,
        le16_bytes(w)[0] + 0x100 * le16_bytes(w)[1] == w,
        be16_bytes(w).len() == 2,
        0x100 * be16_bytes(w)[0] + be16_bytes(w)[1] == w,
        le32_bytes(v).len() == 4,
        le32_bytes(v)[0] + 0x100 * le32_bytes(v)[1] + 0x1_0000 * le32_bytes(v)[2] + 0x100_0000
            * le32_bytes(v)[3] == v,
        be32_bytes(v).len() == 4,
        0x100_0000 * be32_bytes(v)[0] + 0x1_0000 * be32_bytes(v)[1] + 0x100 * be32_bytes(v)[2]
            + be32_bytes(v)[3] == v,
{
}

} // verus!
