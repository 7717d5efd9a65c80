//! Integers as they stand on the wire: most significant byte first.

use vstd::prelude::*;

verus! {

/// The two bytes of `v`, most significant first.
pub open spec fn be16(v: u16) -> Seq<u8> {
    seq![(v / 256) as u8, (v % 256) as u8]
}

/// The four bytes of `v`, most significant first.
pub open spec fn be32(v: u32) -> Seq<u8> {
    seq![
        (v / 0x100_0000) as u8,
        (v / 0x1_0000 % 256) as u8,
        (v / 0x100 % 256) as u8,
        (v % 256) as u8,
    ]
}

/// The number that two bytes write.
pub open spec fn value16(high: u8, low: u8) -> u16 {
    (high as u16 * 256 + low as u16) as u16
}

/// The number that four bytes write.
pub open spec fn value32(b0: u8, b1: u8, b2: u8, b3: u8) -> u32 {
    (b0 as u32 * 0x100_0000 + b1 as u32 * 0x1_0000 + b2 as u32 * 0x100 + b3 as u32) as u32
}

/// The 32 bits of a signed number, read as an unsigned one.
pub open spec fn bits_of(v: i32) -> u32 {
    if v < 0 {
        (v + 0x1_0000_0000) as u32
    } else {
        v as u32
    }
}

/// The signed number whose 32 bits are those of `v`.
pub open spec fn signed(v: u32) -> i32 {
    if v < 0x8000_0000 {
        v as i32
    } else {
        (v - 0x1_0000_0000) as i32
    }
}

/// Writing a number of two bytes and reading it gives it back.
pub proof fn be16_round_trip(v: u16)
    ensures
        be16(v).len() == 2,
        value16(be16(v)[0], be16(v)[1]) == v,
{
}

/// Writing a number of four bytes and reading it gives it back.
pub proof fn be32_round_trip(v: u32)
    ensures
        be32(v).len() == 4,
        value32(be32(v)[0], be32(v)[1], be32(v)[2], be32(v)[3]) == v,
{
}

/// A signed number is its bits, and the other way round.
pub proof fn signed_round_trip(v: i32, bits: u32)
    ensures
        signed(bits_of(v)) == v,
        bits_of(signed(bits)) == bits,
{
}

/// The number that two bytes write.
pub fn read16(high: u8, low: u8) -> (v: u16)
    ensures
        v == value16(high, low),
{
    high as u16 * 256 + low as u16
}

/// The number that four bytes write.
pub fn read32(b0: u8, b1: u8, b2: u8, b3: u8) -> (v: u32)
    ensures
        v == value32(b0, b1, b2, b3),
{
    b0 as u32 * 0x100_0000 + b1 as u32 * 0x1_0000 + b2 as u32 * 0x100 + b3 as u32
}

/// The signed number that four bytes write.
pub fn read_signed(b0: u8, b1: u8, b2: u8, b3: u8) -> (v: i32)
    ensures
        v == signed(value32(b0, b1, b2, b3)),
{
    signed_value(read32(b0, b1, b2, b3))
}

/// The signed number whose 32 bits are those of `v`.
pub fn signed_value(v: u32) -> (s: i32)
    ensures
        s == signed(v),
{
    if v < 0x8000_0000 {
        v as i32
    } else {
        (v as i64 - 0x1_0000_0000) as i32
    }
}

/// Appends the two bytes of `v`.
pub fn push16(bytes: &mut Vec<u8>, v: u16)
    ensures
        final(bytes)@ == old(bytes)@ + be16(v),
{
    bytes.push((v / 256) as u8);
    bytes.push((v % 256) as u8);
    assert(bytes@ =~= old(bytes)@ + be16(v));
}

/// Appends the four bytes of `v`.
pub fn push32(bytes: &mut Vec<u8>, v: u32)
    ensures
        final(bytes)@ == old(bytes)@ + be32(v),
{
    bytes.push((v / 0x100_0000) as u8);
    bytes.push((v / 0x1_0000 % 256) as u8);
    bytes.push((v / 0x100 % 256) as u8);
    bytes.push((v % 256) as u8);
    assert(bytes@ =~= old(bytes)@ + be32(v));
}

/// The four bytes of a signed number.
pub fn signed_bytes(v: i32) -> (bytes: [u8; 4])
    ensures
        bytes@ == be32(bits_of(v)),
{
    let bits: u32 = if v < 0 {
        (v as i64 + 0x1_0000_0000) as u32
    } else {
        v as u32
    };
    let bytes = [
        (bits / 0x100_0000) as u8,
        (bits / 0x1_0000 % 256) as u8,
        (bits / 0x100 % 256) as u8,
        (bits % 256) as u8,
    ];
    assert(bytes@ =~= be32(bits_of(v)));
    bytes
}

/// Appends bytes.
pub fn push_bytes(bytes: &mut Vec<u8>, more: &[u8])
    ensures
        final(bytes)@ == old(bytes)@ + more@,
{
    bytes.extend_from_slice(more);
    assert(bytes@ =~= old(bytes)@ + more@);
}

/// A copy of `bytes[from..to]`.
pub fn copy_range(bytes: &[u8], from: usize, to: usize) -> (copy: Vec<u8>)
    requires
        from <= to <= bytes@.len(),
    ensures
        copy@ == bytes@.subrange(from as int, to as int),
{
    let mut copy: Vec<u8> = Vec::new();
    let mut i: usize = from;
    while i < to
        invariant
            from <= i <= to <= bytes@.len(),
            copy@ == bytes@.subrange(from as int, i as int),
        decreases to - i,
    {
        copy.push(bytes[i]);
        i = i + 1;
        assert(copy@ =~= bytes@.subrange(from as int, i as int));
    }
    copy
}

} // verus!
