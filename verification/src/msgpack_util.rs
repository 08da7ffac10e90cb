//! The two MessagePack values that a frame is built from: a string and a
//! 64-bit signed integer.

use crate::byteutil::{i64_be_bytes, i64_big_endian};
use vstd::prelude::*;
use vstd::string::StringSliceAdditionalSpecFns;

verus! {

/// First byte of an array of three elements.
pub const ARRAY_OF_THREE: u8 = 0x93;

/// First byte of a signed 64-bit integer.
pub const INT_64: u8 = 0xd3;

/// The header that announces a string of `len` bytes: the shortest of the
/// four forms that can hold `len`. A length of 2^32 or more does not fit the
/// longest form; its low 32 bits are written.
pub open spec fn str_header(len: nat) -> Seq<u8> {
    if len < 32 {
        seq![(0xa0 + len) as u8]
    } else if len < 256 {
        seq![0xd9u8, len as u8]
    } else if len < 65536 {
        seq![0xdau8, (len / 0x100) as u8, (len % 0x100) as u8]
    } else {
        seq![
            0xdbu8,
            (len / 0x100_0000 % 0x100) as u8,
            (len / 0x1_0000 % 0x100) as u8,
            (len / 0x100 % 0x100) as u8,
            (len % 0x100) as u8,
        ]
    }
}

/// A string as a MessagePack value: its header, then its bytes.
pub open spec fn str_value(bytes: Seq<u8>) -> Seq<u8> {
    str_header(bytes.len()) + bytes
}

/// A signed 64-bit integer as a MessagePack value: the marker, then the
/// number's eight bytes, most significant first.
pub open spec fn i64_value(i: i64) -> Seq<u8> {
    seq![INT_64] + i64_be_bytes(i)
}

/// The header is one to five bytes long, and its first byte tells which form
/// was taken.
pub proof fn lemma_str_header_form(len: nat)
    ensures
        len < 32 ==> str_header(len).len() == 1 && str_header(len)[0] == 0xa0 + len,
        32 <= len < 256 ==> str_header(len).len() == 2 && str_header(len)[0] == 0xd9,
        256 <= len < 65536 ==> str_header(len).len() == 3 && str_header(len)[0] == 0xda,
        65536 <= len ==> str_header(len).len() == 5 && str_header(len)[0] == 0xdb,
{
}

/// How long a header is, told from its first byte.
pub open spec fn header_len(first: u8) -> nat {
    if first == 0xd9 {
        2
    } else if first == 0xda {
        3
    } else if first == 0xdb {
        5
    } else {
        1
    }
}

/// The first byte of a header tells how long the header is.
pub proof fn lemma_str_header_len(len: nat)
    ensures
        str_header(len).len() == header_len(str_header(len)[0]),
{
    lemma_str_header_form(len);
}

/// The headers at the bounds of the four forms.
pub proof fn lemma_str_header_at_bounds()
    ensures
        str_header(0) == seq![0xa0u8],
        str_header(1) == seq![0xa1u8],
        str_header(31) == seq![0xbfu8],
        str_header(32) == seq![0xd9u8, 0x20u8],
        str_header(255) == seq![0xd9u8, 0xffu8],
        str_header(256) == seq![0xdau8, 0x01u8, 0x00u8],
        str_header(65535) == seq![0xdau8, 0xffu8, 0xffu8],
        str_header(65536) == seq![0xdbu8, 0x00u8, 0x01u8, 0x00u8, 0x00u8],
{
    assert(str_header(0) =~= seq![0xa0u8]);
    assert(str_header(1) =~= seq![0xa1u8]);
    assert(str_header(31) =~= seq![0xbfu8]);
    assert(str_header(32) =~= seq![0xd9u8, 0x20u8]);
    assert(str_header(255) =~= seq![0xd9u8, 0xffu8]);
    assert(str_header(256) =~= seq![0xdau8, 0x01u8, 0x00u8]);
    assert(str_header(65535) =~= seq![0xdau8, 0xffu8, 0xffu8]);
    assert(str_header(65536) =~= seq![0xdbu8, 0x00u8, 0x01u8, 0x00u8, 0x00u8]);
}

/// The length that a header announces, read back from its bytes.
pub open spec fn announced_len(header: Seq<u8>) -> nat
    recommends
        header.len() >= 1,
{
    let first = header[0];
    if first == 0xd9 {
        header[1] as nat
    } else if first == 0xda {
        (header[1] * 0x100 + header[2]) as nat
    } else if first == 0xdb {
        (header[1] * 0x100_0000 + header[2] * 0x1_0000 + header[3] * 0x100 + header[4]) as nat
    } else {
        (first - 0xa0) as nat
    }
}

/// A header announces exactly the length it was made for, as long as that
/// length is below 2^32.
pub proof fn lemma_str_header_announces(len: nat)
    requires
        len < 0x1_0000_0000,
    ensures
        announced_len(str_header(len)) == len,
{
    if len < 32 {
    } else if len < 256 {
    } else if len < 65536 {
        assert(len / 0x100 < 0x100);
    } else {
        assert(len / 0x100_0000 < 0x100);
        let a = len / 0x100_0000 % 0x100;
        let b = len / 0x1_0000 % 0x100;
        let c = len / 0x100 % 0x100;
        let d = len % 0x100;
        assert(a * 0x100_0000 + b * 0x1_0000 + c * 0x100 + d == len);
    }
}

/// Appends `i` to `out` as a MessagePack signed 64-bit integer.
pub fn write_i64(i: i64, out: &mut Vec<u8>)
    ensures
        final(out)@ == old(out)@ + i64_value(i),
{
    out.push(INT_64);
    i64_big_endian(i, out);
    assert(out@ =~= old(out)@ + i64_value(i));
}

/// Appends the header for a string of `len` bytes to `out`.
fn write_str_header(len: usize, out: &mut Vec<u8>)
    ensures
        final(out)@ == old(out)@ + str_header(len as nat),
{
    if len < 32 {
        assert((0xa0usize | len) as u8 == (0xa0 + len) as u8) by (bit_vector)
            requires
                len < 32,
        ;
        out.push((0xa0usize | len) as u8);
    } else if len < 256 {
        out.push(0xd9u8);
        out.push(len as u8);
    } else if len < 65536 {
        assert((len >> 8u32) as u8 == (len / 0x100) as u8) by (bit_vector);
        assert(len as u8 == (len % 0x100) as u8) by (bit_vector);
        out.push(0xdau8);
        out.push((len >> 8u32) as u8);
        out.push(len as u8);
    } else {
        assert((len >> 24u32) as u8 == (len / 0x100_0000 % 0x100) as u8) by (bit_vector);
        assert((len >> 16u32) as u8 == (len / 0x1_0000 % 0x100) as u8) by (bit_vector);
        assert((len >> 8u32) as u8 == (len / 0x100 % 0x100) as u8) by (bit_vector);
        assert(len as u8 == (len % 0x100) as u8) by (bit_vector);
        out.push(0xdbu8);
        out.push((len >> 24u32) as u8);
        out.push((len >> 16u32) as u8);
        out.push((len >> 8u32) as u8);
        out.push(len as u8);
    }
}

/// Appends `s` to `out` as a MessagePack string: the header for the number
/// of bytes of `s` in UTF-8, then those bytes.
pub fn write_string(s: &str, out: &mut Vec<u8>)
    ensures
        final(out)@ == old(out)@ + str_value(s.spec_bytes()),
{
    let bytes = s.as_bytes();
    write_str_header(bytes.len(), out);
    extend_bytes(out, bytes);
    assert(out@ =~= old(out)@ + str_value(s.spec_bytes()));
}

/// Appends `bytes` to `out`.
pub fn extend_bytes(out: &mut Vec<u8>, bytes: &[u8])
    ensures
        final(out)@ == old(out)@ + bytes@,
{
    out.extend_from_slice(bytes);
    assert(out@ =~= old(out)@ + bytes@);
}

} // verus!
