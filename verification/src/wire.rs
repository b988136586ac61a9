use vstd::prelude::*;

verus! {

/// The four bytes of `x`, least significant first.
pub open spec fn le_bytes_u32(x: u32) -> Seq<u8> {
    seq![
        (x % 0x100) as u8,
        (x / 0x100 % 0x100) as u8,
        (x / 0x1_0000 % 0x100) as u8,
        (x / 0x100_0000 % 0x100) as u8,
    ]
}

/// The number whose little-endian bytes are the first four of `s`.
pub open spec fn le_u32_value(s: Seq<u8>) -> u32
    recommends
        s.len() >= 4,
{
    (s[0] + 0x100 * s[1] + 0x1_0000 * s[2] + 0x100_0000 * s[3]) as u32
}

/// The eight bytes of `x`, least significant first.
pub open spec fn le_bytes_u64(x: u64) -> Seq<u8> {
    seq![
        (x % 0x100) as u8,
        (x / 0x100 % 0x100) as u8,
        (x / 0x1_0000 % 0x100) as u8,
        (x / 0x100_0000 % 0x100) as u8,
        (x / 0x1_0000_0000 % 0x100) as u8,
        (x / 0x100_0000_0000 % 0x100) as u8,
        (x / 0x1_0000_0000_0000 % 0x100) as u8,
        (x / 0x100_0000_0000_0000 % 0x100) as u8,
    ]
}

/// The little-endian bytes of `x`.
pub fn u32_le_bytes(x: u32) -> (bytes: Vec<u8>)
    ensures
        bytes@ == le_bytes_u32(x),
{
    let mut bytes: Vec<u8> = Vec::new();
    bytes.push((x % 0x100) as u8);
    bytes.push((x / 0x100 % 0x100) as u8);
    bytes.push((x / 0x1_0000 % 0x100) as u8);
    bytes.push((x / 0x100_0000 % 0x100) as u8);
    assert(bytes@ =~= le_bytes_u32(x));
    bytes
}

/// The little-endian bytes of `x`.
pub fn u64_le_bytes(x: u64) -> (bytes: Vec<u8>)
    ensures
        bytes@ == le_bytes_u64(x),
{
    let mut bytes: Vec<u8> = Vec::new();
    bytes.push((x % 0x100) as u8);
    bytes.push((x / 0x100 % 0x100) as u8);
    bytes.push((x / 0x1_0000 % 0x100) as u8);
    bytes.push((x / 0x100_0000 % 0x100) as u8);
    bytes.push((x / 0x1_0000_0000 % 0x100) as u8);
    bytes.push((x / 0x100_0000_0000 % 0x100) as u8);
    bytes.push((x / 0x1_0000_0000_0000 % 0x100) as u8);
    bytes.push((x / 0x100_0000_0000_0000 % 0x100) as u8);
    assert(bytes@ =~= le_bytes_u64(x));
    bytes
}

/// The number whose little-endian bytes are the four at `start` in `bytes`.
pub fn u32_from_le(bytes: &[u8], start: usize) -> (x: u32)
    requires
        start + 4 <= bytes@.len(),
    ensures
        x == le_u32_value(bytes@.subrange(start as int, start + 4)),
{
    let b0 = bytes[start] as u32;
    let b1 = bytes[start + 1] as u32;
    let b2 = bytes[start + 2] as u32;
    let b3 = bytes[start + 3] as u32;
    b0 + 0x100 * b1 + 0x1_0000 * b2 + 0x100_0000 * b3
}

/// Reading back the bytes of a number gives the number.
pub proof fn lemma_le_u32_roundtrip(x: u32)
    ensures
        le_u32_value(le_bytes_u32(x)) == x,
        le_bytes_u32(x).len() == 4,
{
    let s = le_bytes_u32(x);
    assert(s[0] == (x % 0x100) as u8);
    assert(x == (x % 0x100) + 0x100 * (x / 0x100 % 0x100) + 0x1_0000 * (x / 0x1_0000 % 0x100)
        + 0x100_0000 * (x / 0x100_0000 % 0x100)) by (nonlinear_arith);
}

/// Writing out the number that four bytes stand for gives the bytes.
pub proof fn lemma_le_bytes_roundtrip(s: Seq<u8>)
    requires
        s.len() == 4,
    ensures
        le_bytes_u32(le_u32_value(s)) == s,
{
    let b0 = s[0];
    let b1 = s[1];
    let b2 = s[2];
    let b3 = s[3];
    let x: int = b0 + 0x100 * b1 + 0x1_0000 * b2 + 0x100_0000 * b3;
    assert(x % 0x100 == b0 && x / 0x100 % 0x100 == b1 && x / 0x1_0000 % 0x100 == b2
        && x / 0x100_0000 % 0x100 == b3) by (nonlinear_arith)
        requires
            x == b0 + 0x100 * b1 + 0x1_0000 * b2 + 0x100_0000 * b3,
            0 <= b0 < 0x100,
            0 <= b1 < 0x100,
            0 <= b2 < 0x100,
            0 <= b3 < 0x100,
    ;
    assert(le_bytes_u32(le_u32_value(s)) =~= s);
}

} // verus!
