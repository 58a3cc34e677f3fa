//! Fixed-width integers in big-endian and little-endian order.

use vstd::prelude::*;

verus! {

/// The four bytes of a number, most significant first.
pub open spec fn be32(value: u32) -> Seq<u8> {
    seq![
        (value as int / 0x100_0000) as u8,
        (value as int / 0x1_0000 % 0x100) as u8,
        (value as int / 0x100 % 0x100) as u8,
        (value as int % 0x100) as u8,
    ]
}

/// The four bytes of a number, least significant first.
pub open spec fn le32(value: u32) -> Seq<u8> {
    seq![
        (value as int % 0x100) as u8,
        (value as int / 0x100 % 0x100) as u8,
        (value as int / 0x1_0000 % 0x100) as u8,
        (value as int / 0x100_0000) as u8,
    ]
}

/// The number that four bytes stand for, most significant first.
pub open spec fn from_be32(bytes: Seq<u8>) -> int {
    bytes[0] * 0x100_0000 + bytes[1] * 0x1_0000 + bytes[2] * 0x100 + bytes[3]
}

/// The number that four bytes stand for, least significant first.
pub open spec fn from_le32(bytes: Seq<u8>) -> int {
    bytes[0] + bytes[1] * 0x100 + bytes[2] * 0x1_0000 + bytes[3] * 0x100_0000
}

/// The number that eight bytes stand for, least significant first.
pub open spec fn from_le64(bytes: Seq<u8>) -> int {
    from_le32(bytes.subrange(0, 4)) + from_le32(bytes.subrange(4, 8)) * 0x1_0000_0000
}

/// The eight bytes of a number, least significant first.
pub open spec fn le64(value: u64) -> Seq<u8> {
    le32((value as int % 0x1_0000_0000) as u32) + le32((value as int / 0x1_0000_0000) as u32)
}

/// Writing a number and reading it back gives the number, in either order.
pub proof fn integers_round_trip(value: u32, wide: u64)
    ensures
        be32(value).len() == 4,
        le32(value).len() == 4,
        le64(wide).len() == 8,
        from_be32(be32(value)) == value,
        from_le32(le32(value)) == value,
        from_le64(le64(wide)) == wide,
{
    lemma_le32(value);
    lemma_be32(value);
    let low = (wide as int % 0x1_0000_0000) as u32;
    let high = (wide as int / 0x1_0000_0000) as u32;
    lemma_le32(low);
    lemma_le32(high);
    assert(le64(wide).subrange(0, 4) =~= le32(low));
    assert(le64(wide).subrange(4, 8) =~= le32(high));
}

proof fn lemma_le32(value: u32)
    ensures
        from_le32(le32(value)) == value,
{
    assert(value % 0x100 + (value / 0x100 % 0x100) * 0x100 + (value / 0x1_0000 % 0x100) * 0x1_0000
        + (value / 0x100_0000) * 0x100_0000 == value) by (bit_vector);
}

proof fn lemma_be32(value: u32)
    ensures
        from_be32(be32(value)) == value,
{
    assert(value % 0x100 + (value / 0x100 % 0x100) * 0x100 + (value / 0x1_0000 % 0x100) * 0x1_0000
        + (value / 0x100_0000) * 0x100_0000 == value) by (bit_vector);
}

/// Appends a number, most significant byte first.
pub fn push_be32(out: &mut Vec<u8>, value: u32)
    ensures
        final(out)@ == old(out)@ + be32(value),
{
    out.push((value / 0x100_0000) as u8);
    out.push((value / 0x1_0000 % 0x100) as u8);
    out.push((value / 0x100 % 0x100) as u8);
    out.push((value % 0x100) as u8);
    assert(out@ =~= old(out)@ + be32(value));
}

/// Appends a number, least significant byte first.
pub fn push_le32(out: &mut Vec<u8>, value: u32)
    ensures
        final(out)@ == old(out)@ + le32(value),
{
    out.push((value % 0x100) as u8);
    out.push((value / 0x100 % 0x100) as u8);
    out.push((value / 0x1_0000 % 0x100) as u8);
    out.push((value / 0x100_0000) as u8);
    assert(out@ =~= old(out)@ + le32(value));
}

/// Appends a wide number, least significant byte first.
pub fn push_le64(out: &mut Vec<u8>, value: u64)
    ensures
        final(out)@ == old(out)@ + le64(value),
{
    push_le32(out, (value % 0x1_0000_0000) as u32);
    push_le32(out, (value / 0x1_0000_0000) as u32);
    assert(out@ =~= old(out)@ + le64(value));
}

/// Reads the number at an offset, most significant byte first.
pub fn read_be32(bytes: &[u8], at: usize) -> (result: u32)
    requires
        at + 4 <= bytes@.len(),
    ensures
        result == from_be32(bytes@.subrange(at as int, at + 4)),
{
    bytes[at] as u32 * 0x100_0000 + bytes[at + 1] as u32 * 0x1_0000 + bytes[at + 2] as u32 * 0x100
        + bytes[at + 3] as u32
}

/// Reads the number at an offset, least significant byte first.
pub fn read_le32(bytes: &[u8], at: usize) -> (result: u32)
    requires
        at + 4 <= bytes@.len(),
    ensures
        result == from_le32(bytes@.subrange(at as int, at + 4)),
{
    bytes[at] as u32 + bytes[at + 1] as u32 * 0x100 + bytes[at + 2] as u32 * 0x1_0000
        + bytes[at + 3] as u32 * 0x100_0000
}

/// Reads the wide number at an offset, least significant byte first.
pub fn read_le64(bytes: &[u8], at: usize) -> (result: u64)
    requires
        at + 8 <= bytes@.len(),
    ensures
        result == from_le64(bytes@.subrange(at as int, at + 8)),
{
    let len: usize = bytes.len();
    assert(at + 8 <= len);
    let low: u32 = read_le32(bytes, at);
    let high: u32 = read_le32(bytes, at + 4);
    proof {
        let whole = bytes@.subrange(at as int, at + 8);
        assert(whole.subrange(0, 4) =~= bytes@.subrange(at as int, at + 4));
        assert(whole.subrange(4, 8) =~= bytes@.subrange(at + 4, at + 8));
    }
    low as u64 + high as u64 * 0x1_0000_0000
}

/// Big-endian bytes stand with the most significant first, little-endian bytes with the least.
pub proof fn byte_orders_are_kept(value: u32, wide: u64)
    ensures
        be32(value)[0] * 0x100_0000 + be32(value)[1] * 0x1_0000 + be32(value)[2] * 0x100 + be32(
            value,
        )[3] == value,
        le32(value)[3] * 0x100_0000 + le32(value)[2] * 0x1_0000 + le32(value)[1] * 0x100 + le32(
            value,
        )[0] == value,
        forall|i: int| 0 <= i < 4 ==> (#[trigger] le32(value)[i]) == be32(value)[3 - i],
        le64(wide)[0] == wide as int % 0x100,
        le64(wide)[7] == wide as int / 0x100_0000_0000_0000,
{
    integers_round_trip(value, wide);
    let high = (wide as int / 0x1_0000_0000) as u32;
    assert(le64(wide)[7] == le32(high)[3]);
}

} // verus!
