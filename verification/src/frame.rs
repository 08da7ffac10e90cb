//! The two encodings of an event `[tag, time, record]`: JSON text and
//! MessagePack bytes. The record arrives already encoded and is copied as it
//! is.

use crate::byteutil::{be_signed, i64_be_bytes, lemma_be_bytes_spell_value};
use crate::msgpack_util::{
    announced_len, extend_bytes, i64_value, lemma_str_header_announces, lemma_str_header_form,
    lemma_str_header_len, str_header, str_value, write_i64, write_string, ARRAY_OF_THREE,
};
use vstd::prelude::*;
use vstd::string::StringSliceAdditionalSpecFns;

verus! {

/// The ASCII digits of `n` in base ten, without leading zeros.
pub open spec fn decimal_digits(n: nat) -> Seq<u8>
    decreases n,
{
    if n < 10 {
        seq![(0x30 + n) as u8]
    } else {
        decimal_digits(n / 10).push((0x30 + n % 10) as u8)
    }
}

/// `i` in base ten as ASCII text, with a minus sign where it is negative.
pub open spec fn decimal(i: int) -> Seq<u8> {
    if i < 0 {
        seq![0x2du8] + decimal_digits((-i) as nat)
    } else {
        decimal_digits(i as nat)
    }
}

/// The JSON text `["<tag>",<time>,<record>]`. The tag goes between the
/// quotes as it is, without escaping.
pub open spec fn json_frame_bytes(tag: Seq<u8>, time: i64, record: Seq<u8>) -> Seq<u8> {
    seq![0x5bu8, 0x22u8] + tag + seq![0x22u8, 0x2cu8] + decimal(time as int) + seq![0x2cu8]
        + record + seq![0x5du8]
}

/// The MessagePack array of three: the tag as a string, the time as a signed
/// 64-bit integer, the record.
pub open spec fn msgpack_frame_bytes(tag: Seq<u8>, time: i64, record: Seq<u8>) -> Seq<u8> {
    seq![ARRAY_OF_THREE] + str_value(tag) + i64_value(time) + record
}

/// The number that the ASCII digits `digits` spell in base ten.
pub open spec fn digits_value(digits: Seq<u8>) -> nat
    decreases digits.len(),
{
    if digits.len() == 0 {
        0
    } else {
        digits_value(digits.drop_last()) * 10 + (digits.last() - 0x30) as nat
    }
}

/// The digits of `n` are digits, at least one, without a leading zero
/// unless `n` is zero, and they spell `n`.
pub proof fn lemma_digits_read_back(n: nat)
    ensures
        decimal_digits(n).len() >= 1,
        forall|k: int|
            0 <= k < decimal_digits(n).len() ==> 0x30 <= #[trigger] decimal_digits(n)[k] <= 0x39,
        n > 0 ==> decimal_digits(n)[0] != 0x30,
        digits_value(decimal_digits(n)) == n,
    decreases n,
{
    let digits = decimal_digits(n);
    if n < 10 {
        assert(digits.drop_last() =~= Seq::<u8>::empty());
        assert(digits_value(digits.drop_last()) == 0);
    } else {
        lemma_digits_read_back(n / 10);
        let front = decimal_digits(n / 10);
        assert(digits.drop_last() =~= front);
        assert(digits[0] == front[0]);
        assert forall|k: int| 0 <= k < digits.len() implies 0x30 <= #[trigger] digits[k]
            <= 0x39 by {
            if k < front.len() {
                assert(digits[k] == front[k]);
            }
        }
    }
}

/// The digits of `n` are those of `n / 10` followed by its last digit.
proof fn lemma_digits_step(n: nat)
    requires
        n >= 10,
    ensures
        decimal_digits(n) == decimal_digits(n / 10).push((0x30 + n % 10) as u8),
{
}

/// Appends the base-ten digits of `n` to `out`.
fn write_digits(n: u64, out: &mut Vec<u8>)
    ensures
        final(out)@ == old(out)@ + decimal_digits(n as nat),
{
    // The digits come out last first: collect them, then append them in order.
    let mut reversed: Vec<u8> = Vec::new();
    let mut rest: u64 = n;
    assert(decimal_digits(n as nat) =~= decimal_digits(rest as nat) + reversed@.reverse());
    while rest >= 10
        invariant
            decimal_digits(n as nat) == decimal_digits(rest as nat) + reversed@.reverse(),
        decreases rest,
    {
        let digit: u8 = 0x30u8 + (rest % 10) as u8;
        proof {
            lemma_digits_step(rest as nat);
            let before = reversed@;
            assert(before.push(digit).reverse() =~= seq![digit] + before.reverse());
            assert(decimal_digits(rest as nat) + before.reverse() =~= decimal_digits(
                (rest / 10) as nat,
            ) + before.push(digit).reverse());
        }
        reversed.push(digit);
        rest = rest / 10;
    }
    let first: u8 = 0x30u8 + rest as u8;
    out.push(first);
    let mut k: usize = reversed.len();
    assert(out@ =~= old(out)@ + seq![first] + reversed@.reverse().subrange(0, 0));
    while k > 0
        invariant
            k <= reversed.len(),
            out@ == old(out)@ + seq![first] + reversed@.reverse().subrange(
                0,
                reversed.len() - k,
            ),
        decreases k,
    {
        k = k - 1;
        out.push(reversed[k]);
        assert(out@ =~= old(out)@ + seq![first] + reversed@.reverse().subrange(
            0,
            reversed.len() - k,
        ));
    }
    assert(out@ =~= old(out)@ + decimal_digits(n as nat)) by {
        assert(reversed@.reverse().subrange(0, reversed.len() as int) =~= reversed@.reverse());
    }
}

/// Appends `i` in base ten to `out`.
pub fn write_decimal(i: i64, out: &mut Vec<u8>)
    ensures
        final(out)@ == old(out)@ + decimal(i as int),
{
    if i < 0 {
        out.push(0x2du8);
        // -(i + 1) + 1 is the magnitude of `i`, and no step of it leaves i64
        // or u64, not even for the least i64.
        let magnitude: u64 = (-(i + 1)) as u64 + 1;
        write_digits(magnitude, out);
        assert(out@ =~= old(out)@ + decimal(i as int));
    } else {
        write_digits(i as u64, out);
    }
}

/// Encodes an event as JSON text. `record` is the record's JSON.
pub fn json_frame(tag: &str, time: i64, record: &str) -> (frame: Vec<u8>)
    ensures
        frame@ == json_frame_bytes(tag.spec_bytes(), time, record.spec_bytes()),
{
    let mut frame: Vec<u8> = Vec::new();
    frame.push(0x5bu8);
    frame.push(0x22u8);
    extend_bytes(&mut frame, tag.as_bytes());
    frame.push(0x22u8);
    frame.push(0x2cu8);
    write_decimal(time, &mut frame);
    frame.push(0x2cu8);
    extend_bytes(&mut frame, record.as_bytes());
    frame.push(0x5du8);
    assert(frame@ =~= json_frame_bytes(tag.spec_bytes(), time, record.spec_bytes()));
    frame
}

/// Writes what comes before the record in a MessagePack frame: the array
/// marker, the tag and the time.
pub fn msgpack_frame_head(tag: &str, time: i64) -> (head: Vec<u8>)
    ensures
        head@ == msgpack_frame_bytes(tag.spec_bytes(), time, Seq::<u8>::empty()),
{
    let mut head: Vec<u8> = Vec::new();
    head.push(ARRAY_OF_THREE);
    write_string(tag, &mut head);
    write_i64(time, &mut head);
    assert(head@ =~= msgpack_frame_bytes(tag.spec_bytes(), time, Seq::<u8>::empty()));
    head
}

/// Encodes an event as MessagePack. `record` is the record's MessagePack.
pub fn msgpack_frame(tag: &str, time: i64, record: &[u8]) -> (frame: Vec<u8>)
    ensures
        frame@ == msgpack_frame_bytes(tag.spec_bytes(), time, record@),
{
    let mut frame = msgpack_frame_head(tag, time);
    extend_bytes(&mut frame, record);
    assert(frame@ =~= msgpack_frame_bytes(tag.spec_bytes(), time, record@));
    frame
}

/// How a MessagePack frame reads, for a tag shorter than 2^32 bytes: the
/// array marker; a string header that announces the tag's length; the tag;
/// the integer marker; eight bytes that spell `time` in big-endian two's
/// complement; the record, to the end.
pub proof fn lemma_msgpack_frame_layout(tag: Seq<u8>, time: i64, record: Seq<u8>)
    requires
        tag.len() < 0x1_0000_0000,
    ensures
        ({
            let frame = msgpack_frame_bytes(tag, time, record);
            let header = str_header(tag.len());
            let tag_at: int = header.len() + 1int;
            let time_at: int = tag_at + tag.len();
            &&& frame.len() == time_at + 9 + record.len()
            &&& frame[0] == 0x93
            &&& frame.subrange(1, tag_at) == header
            &&& 1 <= header.len() <= 5
            &&& announced_len(header) == tag.len()
            &&& frame.subrange(tag_at, time_at) == tag
            &&& frame[time_at] == 0xd3
            &&& be_signed(frame.subrange(time_at + 1, time_at + 9)) == time
            &&& frame.subrange(time_at + 9, frame.len() as int) == record
        }),
{
    let frame = msgpack_frame_bytes(tag, time, record);
    let header = str_header(tag.len());
    let tag_at: int = header.len() + 1int;
    let time_at: int = tag_at + tag.len();
    lemma_str_header_announces(tag.len());
    lemma_str_header_form(tag.len());
    lemma_be_bytes_spell_value(time);
    assert(frame.subrange(1, tag_at) =~= header);
    assert(frame.subrange(tag_at, time_at) =~= tag);
    assert(frame.subrange(time_at + 1, time_at + 9) =~= i64_be_bytes(time));
    assert(frame.subrange(time_at + 9, frame.len() as int) =~= record);
}

/// Two events with the same MessagePack frame are the same event: the frame
/// gives back its tag, its time and its record.
pub proof fn lemma_msgpack_frame_is_injective(
    tag: Seq<u8>,
    time: i64,
    record: Seq<u8>,
    other_tag: Seq<u8>,
    other_time: i64,
    other_record: Seq<u8>,
)
    requires
        tag.len() < 0x1_0000_0000,
        other_tag.len() < 0x1_0000_0000,
        msgpack_frame_bytes(tag, time, record) == msgpack_frame_bytes(
            other_tag,
            other_time,
            other_record,
        ),
    ensures
        tag == other_tag,
        time == other_time,
        record == other_record,
{
    let frame = msgpack_frame_bytes(tag, time, record);
    let header = str_header(tag.len());
    let other_header = str_header(other_tag.len());
    lemma_msgpack_frame_layout(tag, time, record);
    lemma_msgpack_frame_layout(other_tag, other_time, other_record);
    lemma_str_header_len(tag.len());
    lemma_str_header_len(other_tag.len());
    assert(header[0] == frame.subrange(1, header.len() + 1int)[0]);
    assert(other_header[0] == frame.subrange(1, other_header.len() + 1int)[0]);
    assert(header.len() == other_header.len());
    assert(header == other_header);
    assert(tag.len() == other_tag.len());
}

/// A JSON frame opens with `["`, then holds the tag, `",`, the time in base
/// ten, a comma, the record, and closes with `]`.
pub proof fn lemma_json_frame_layout(tag: Seq<u8>, time: i64, record: Seq<u8>)
    ensures
        ({
            let frame = json_frame_bytes(tag, time, record);
            let digits = decimal(time as int);
            let time_at: int = tag.len() + 4int;
            let record_at: int = time_at + digits.len() + 1;
            &&& frame.len() == record_at + record.len() + 1
            &&& frame.subrange(0, 2) == seq![0x5bu8, 0x22u8]
            &&& frame.subrange(2, time_at - 2) == tag
            &&& frame.subrange(time_at - 2, time_at) == seq![0x22u8, 0x2cu8]
            &&& frame.subrange(time_at, record_at - 1) == digits
            &&& frame[record_at - 1] == 0x2c
            &&& frame.subrange(record_at, record_at + record.len()) == record
            &&& frame.last() == 0x5d
        }),
{
    let frame = json_frame_bytes(tag, time, record);
    let digits = decimal(time as int);
    let time_at: int = tag.len() + 4int;
    let record_at: int = time_at + digits.len() + 1;
    assert(frame.subrange(0, 2) =~= seq![0x5bu8, 0x22u8]);
    assert(frame.subrange(2, time_at - 2) =~= tag);
    assert(frame.subrange(time_at - 2, time_at) =~= seq![0x22u8, 0x2cu8]);
    assert(frame.subrange(time_at, record_at - 1) =~= digits);
    assert(frame.subrange(record_at, record_at + record.len()) =~= record);
}

} // verus!
