//! Fixed-width integer packing that does not depend on the host's byte order.
//! The big-endian pack appends to a growable sink; the little-endian pack
//! writes into a slice that the caller has made room in.

use vstd::prelude::*;

verus! {

/// The byte of `i` that starts `shift` bits above the least significant bit,
/// read off the two's-complement representation.
pub open spec fn i64_byte(i: i64, shift: u32) -> u8 {
    ((i >> shift) & 0xff) as u8
}

/// The least significant byte of `i`.
pub open spec fn i64_low_byte(i: i64) -> u8 {
    (i & 0xff) as u8
}

/// The eight bytes of `i`, most significant first.
pub open spec fn i64_be_bytes(i: i64) -> Seq<u8> {
    seq![
        i64_byte(i, 56),
        i64_byte(i, 48),
        i64_byte(i, 40),
        i64_byte(i, 32),
        i64_byte(i, 24),
        i64_byte(i, 16),
        i64_byte(i, 8),
        i64_low_byte(i),
    ]
}

/// The eight bytes of `i`, least significant first.
pub open spec fn i64_le_bytes(i: i64) -> Seq<u8> {
    i64_be_bytes(i).reverse()
}

/// The unsigned number that eight bytes spell when the first is the most
/// significant.
pub open spec fn be_unsigned(bytes: Seq<u8>) -> int
    recommends
        bytes.len() == 8,
{
    bytes[0] * 0x1_00_0000_0000_0000 + bytes[1] * 0x1_0000_0000_0000 + bytes[2] * 0x1_00_0000_0000
        + bytes[3] * 0x1_0000_0000 + bytes[4] * 0x1_00_0000 + bytes[5] * 0x1_0000 + bytes[6]
        * 0x1_00 + bytes[7]
}

/// The signed number that eight big-endian bytes spell in two's complement.
pub open spec fn be_signed(bytes: Seq<u8>) -> int
    recommends
        bytes.len() == 8,
{
    let u = be_unsigned(bytes);
    if u >= 0x8000_0000_0000_0000 {
        u - 0x1_0000_0000_0000_0000
    } else {
        u
    }
}

/// The number below 2^64 that stands for `i` in two's complement.
pub open spec fn twos_complement(i: i64) -> nat {
    if i >= 0 {
        i as nat
    } else {
        (i + 0x1_0000_0000_0000_0000) as nat
    }
}

/// The eight digits of `n` in base 256, most significant first.
pub open spec fn be_digits(n: nat) -> Seq<u8> {
    seq![
        (n / 0x1_00_0000_0000_0000 % 0x100) as u8,
        (n / 0x1_0000_0000_0000 % 0x100) as u8,
        (n / 0x1_00_0000_0000 % 0x100) as u8,
        (n / 0x1_0000_0000 % 0x100) as u8,
        (n / 0x1_00_0000 % 0x100) as u8,
        (n / 0x1_0000 % 0x100) as u8,
        (n / 0x1_00 % 0x100) as u8,
        (n % 0x100) as u8,
    ]
}

/// The big-endian bytes of `i` are the base-256 digits of its two's
/// complement, for negative `i` as for any other.
pub proof fn lemma_be_bytes_are_digits(i: i64)
    ensures
        i64_be_bytes(i) == be_digits(twos_complement(i)),
{
    let u = i as u64;
    assert(i >= 0 ==> i as u64 == i) by (bit_vector);
    assert(i < 0 ==> i as u64 == i + 0x1_0000_0000_0000_0000) by (bit_vector);
    assert(u == twos_complement(i));
    assert(((i >> 56u32) & 0xff) as u8 == ((i as u64) / 0x1_00_0000_0000_0000 % 0x100) as u8)
        by (bit_vector);
    assert(((i >> 48u32) & 0xff) as u8 == ((i as u64) / 0x1_0000_0000_0000 % 0x100) as u8)
        by (bit_vector);
    assert(((i >> 40u32) & 0xff) as u8 == ((i as u64) / 0x1_00_0000_0000 % 0x100) as u8)
        by (bit_vector);
    assert(((i >> 32u32) & 0xff) as u8 == ((i as u64) / 0x1_0000_0000 % 0x100) as u8)
        by (bit_vector);
    assert(((i >> 24u32) & 0xff) as u8 == ((i as u64) / 0x1_00_0000 % 0x100) as u8)
        by (bit_vector);
    assert(((i >> 16u32) & 0xff) as u8 == ((i as u64) / 0x1_0000 % 0x100) as u8) by (bit_vector);
    assert(((i >> 8u32) & 0xff) as u8 == ((i as u64) / 0x1_00 % 0x100) as u8) by (bit_vector);
    assert((i & 0xff) as u8 == ((i as u64) % 0x100) as u8) by (bit_vector);
    assert(i64_be_bytes(i) =~= be_digits(twos_complement(i)));
}

/// What truncating a shifted `i64` to eight bits keeps.
pub proof fn lemma_truncated_byte(i: i64, shift: u32)
    requires
        shift < 64,
    ensures
        (i >> shift) as u8 == i64_byte(i, shift),
{
    assert((i >> shift) as u8 == ((i >> shift) & 0xff) as u8) by (bit_vector)
        requires
            shift < 64,
    ;
}

/// Reading the big-endian bytes of `i` back as a two's-complement number
/// gives `i`, for negative `i` as for any other.
pub proof fn lemma_be_bytes_spell_value(i: i64)
    ensures
        i64_be_bytes(i).len() == 8,
        be_signed(i64_be_bytes(i)) == i,
{
    let u = i as u64;
    assert(((i >> 56u32) & 0xff) as u8 * 0x1_00_0000_0000_0000 + ((i >> 48u32) & 0xff) as u8
        * 0x1_0000_0000_0000 + ((i >> 40u32) & 0xff) as u8 * 0x1_00_0000_0000 + ((i >> 32u32)
        & 0xff) as u8 * 0x1_0000_0000 + ((i >> 24u32) & 0xff) as u8 * 0x1_00_0000 + ((i >> 16u32)
        & 0xff) as u8 * 0x1_0000 + ((i >> 8u32) & 0xff) as u8 * 0x1_00 + (i & 0xff) as u8
        == i as u64) by (bit_vector);
    assert(i >= 0 ==> i as u64 == i && (i as u64) < 0x8000_0000_0000_0000) by (bit_vector);
    assert(i < 0 ==> i as u64 == i + 0x1_0000_0000_0000_0000 && (i as u64)
        >= 0x8000_0000_0000_0000) by (bit_vector);
}

/// The least significant byte of `i`.
pub(crate) fn low_byte(i: i64) -> (byte: u8)
    ensures
        byte == i64_low_byte(i),
{
    assert(i as u8 == (i & 0xff) as u8) by (bit_vector);
    i as u8
}

/// The byte of `i` that starts `shift` bits above the least significant bit.
pub(crate) fn byte_at(i: i64, shift: u32) -> (byte: u8)
    requires
        shift < 64,
    ensures
        byte == i64_byte(i, shift),
{
    proof {
        lemma_truncated_byte(i, shift);
    }
    (i >> shift) as u8
}

/// Appends the eight bytes of `i` to `out`, most significant byte first,
/// whatever the host's byte order.
pub fn i64_big_endian(i: i64, out: &mut Vec<u8>)
    ensures
        final(out)@ == old(out)@ + i64_be_bytes(i),
{
    out.push(byte_at(i, 56));
    out.push(byte_at(i, 48));
    out.push(byte_at(i, 40));
    out.push(byte_at(i, 32));
    out.push(byte_at(i, 24));
    out.push(byte_at(i, 16));
    out.push(byte_at(i, 8));
    out.push(low_byte(i));
    assert(out@ =~= old(out)@ + i64_be_bytes(i));
}

/// Writes `i` into the first eight bytes of `out`, least significant byte
/// first. Bytes of `out` past the eighth are left as they were.
pub fn i64_little_endian(i: i64, out: &mut [u8])
    requires
        old(out)@.len() >= 8,
    ensures
        final(out)@ == i64_le_bytes(i) + old(out)@.skip(8),
{
    out[7] = byte_at(i, 56);
    out[6] = byte_at(i, 48);
    out[5] = byte_at(i, 40);
    out[4] = byte_at(i, 32);
    out[3] = byte_at(i, 24);
    out[2] = byte_at(i, 16);
    out[1] = byte_at(i, 8);
    out[0] = low_byte(i);
}

} // verus!
