use fluent::frame::{json_frame, msgpack_frame, msgpack_frame_head, write_decimal};
use std::collections::BTreeMap;

const RECORD: [u8; 11] = [0x81, 0xa3, b'k', b'e', b'y', 0xa5, b'v', b'a', b'l', b'u', b'e'];

#[test]
fn messagepack_frame_is_byte_exact() {
    let frame = msgpack_frame("foo.bar", 1500564758, &RECORD);
    let expected: Vec<u8> = vec![
        0x93, 0xa7, 0x66, 0x6f, 0x6f, 0x2e, 0x62, 0x61, 0x72, 0xd3, 0x00, 0x00, 0x00, 0x00, 0x59,
        0x70, 0xcd, 0x16, 0x81, 0xa3, 0x6b, 0x65, 0x79, 0xa5, 0x76, 0x61, 0x6c, 0x75, 0x65,
    ];
    assert_eq!(frame, expected);
}

#[test]
fn messagepack_frame_with_time_bytes_59_6e_8a_16() {
    // 0x596e8a16 is 1500416534.
    let frame = msgpack_frame("foo.bar", 1500416534, &RECORD);
    let expected: Vec<u8> = vec![
        0x93, 0xa7, 0x66, 0x6f, 0x6f, 0x2e, 0x62, 0x61, 0x72, 0xd3, 0x00, 0x00, 0x00, 0x00, 0x59,
        0x6e, 0x8a, 0x16, 0x81, 0xa3, 0x6b, 0x65, 0x79, 0xa5, 0x76, 0x61, 0x6c, 0x75, 0x65,
    ];
    assert_eq!(frame, expected);
}

#[test]
fn json_frame_is_text_exact() {
    let frame = json_frame("foo.bar", 1500564758, "{\"key\":\"value\"}");
    assert_eq!(frame, b"[\"foo.bar\",1500564758,{\"key\":\"value\"}]".to_vec());
}

#[test]
fn json_frame_does_not_escape_the_tag() {
    let frame = json_frame("a\"b", 0, "null");
    assert_eq!(frame, b"[\"a\"b\",0,null]".to_vec());
}

#[test]
fn json_frame_with_negative_time() {
    let frame = json_frame("t", -42, "1");
    assert_eq!(frame, b"[\"t\",-42,1]".to_vec());
}

#[test]
fn decimal_agrees_with_std() {
    for &i in &[0i64, 1, 9, 10, 11, 99, 100, 1500564758, -1, -9, -10, -1500564758, i64::MAX, i64::MIN] {
        let mut out = vec![b'#'];
        write_decimal(i, &mut out);
        assert_eq!(String::from_utf8(out).unwrap(), format!("#{}", i));
    }
}

#[test]
fn decimal_of_the_least_integer() {
    let mut out = Vec::new();
    write_decimal(i64::MIN, &mut out);
    assert_eq!(out, b"-9223372036854775808".to_vec());
}

#[test]
fn messagepack_head_is_the_frame_without_record() {
    let head = msgpack_frame_head("foo.bar", 1500564758);
    let frame = msgpack_frame("foo.bar", 1500564758, &RECORD);
    assert_eq!(head.len(), 18);
    assert_eq!(&frame[..18], &head[..]);
    assert_eq!(&frame[18..], &RECORD[..]);
    assert_eq!(msgpack_frame("foo.bar", 1500564758, &[]), head);
}

#[test]
fn messagepack_frame_is_well_formed_for_each_header_form() {
    for &len in &[0usize, 1, 31, 32, 255, 256, 65535, 65536, 70000] {
        let tag = "g".repeat(len);
        let time = -1234567890123i64;
        let frame = msgpack_frame(&tag, time, &RECORD);
        let header_len = if len < 32 {
            1
        } else if len < 256 {
            2
        } else if len < 65536 {
            3
        } else {
            5
        };
        assert_eq!(frame.len(), 1 + header_len + len + 9 + RECORD.len());
        assert_eq!(frame[0], 0x93);
        let tag_at = 1 + header_len;
        assert_eq!(&frame[tag_at..tag_at + len], tag.as_bytes());
        let time_at = tag_at + len;
        assert_eq!(frame[time_at], 0xd3);
        let mut eight = [0u8; 8];
        eight.copy_from_slice(&frame[time_at + 1..time_at + 9]);
        assert_eq!(i64::from_be_bytes(eight), time);
        assert_eq!(&frame[time_at + 9..], &RECORD[..]);
    }
}

#[test]
fn messagepack_frame_round_trips_through_a_decoder() {
    let frame = msgpack_frame("foo.bar", 1500564758, &RECORD);
    let (tag, time, record): (String, i64, BTreeMap<String, String>) =
        rmp_serde::from_slice(&frame).unwrap();
    assert_eq!(tag, "foo.bar");
    assert_eq!(time, 1500564758);
    let mut expected = BTreeMap::new();
    expected.insert("key".to_string(), "value".to_string());
    assert_eq!(record, expected);
    let again: BTreeMap<String, String> = rmp_serde::from_slice(&RECORD).unwrap();
    assert_eq!(record, again);
}

#[test]
fn messagepack_frame_round_trips_with_long_tag_and_negative_time() {
    let tag = "\u{3b1}\u{3b2}\u{3b3}.".repeat(100);
    let record = rmp_serde::to_vec(&vec![1u32, 2, 3]).unwrap();
    let frame = msgpack_frame(&tag, -5, &record);
    let (t, time, r): (String, i64, Vec<u32>) = rmp_serde::from_slice(&frame).unwrap();
    assert_eq!(t, tag);
    assert_eq!(time, -5);
    assert_eq!(r, vec![1, 2, 3]);
}

#[test]
fn json_frame_parses_as_an_array_of_three() {
    let frame = json_frame("foo.bar", -7, "{\"key\":\"value\"}");
    let value: serde_json::Value = serde_json::from_slice(&frame).unwrap();
    let parts = value.as_array().unwrap();
    assert_eq!(parts.len(), 3);
    assert_eq!(parts[0].as_str(), Some("foo.bar"));
    assert_eq!(parts[1].as_i64(), Some(-7));
    assert_eq!(parts[2]["key"].as_str(), Some("value"));
}
