use ballista_core::serde::wire::{
    append_bytes, key_byte, read_bytes_field, read_repeated_field, read_string_field,
    read_u32_field, read_u64_field, read_uint_field, read_varint, write_bytes_field,
    write_string_field, write_uint_field, write_varint, LENGTH_DELIMITED, VARINT,
};

fn varint_of(value: u64) -> Vec<u8> {
    let mut buf = Vec::new();
    write_varint(value, &mut buf);
    buf
}

#[test]
fn varint_of_300_is_two_bytes() {
    let buf = varint_of(300);
    assert_eq!(buf, vec![0xAC, 0x02]);
    let (value, rest) = read_varint(&buf).unwrap();
    assert_eq!(value, 300);
    assert!(rest.is_empty());
}

#[test]
fn varint_small_values_are_one_byte() {
    assert_eq!(varint_of(0), vec![0x00]);
    assert_eq!(varint_of(1), vec![0x01]);
    assert_eq!(varint_of(127), vec![0x7F]);
    assert_eq!(varint_of(128), vec![0x80, 0x01]);
}

#[test]
fn varint_of_max_is_ten_bytes() {
    let buf = varint_of(u64::MAX);
    assert_eq!(buf, vec![0xFF, 0xFF, 0xFF, 0xFF, 0xFF, 0xFF, 0xFF, 0xFF, 0xFF, 0x01]);
    let (value, rest) = read_varint(&buf).unwrap();
    assert_eq!(value, u64::MAX);
    assert!(rest.is_empty());
}

#[test]
fn varint_round_trips_and_leaves_the_tail() {
    for value in [0u64, 1, 127, 128, 255, 300, 16_383, 16_384, 1 << 32, u64::MAX - 1, u64::MAX] {
        let mut buf = varint_of(value);
        buf.extend_from_slice(&[0xDE, 0xAD]);
        let (back, rest) = read_varint(&buf).unwrap();
        assert_eq!(back, value);
        assert_eq!(rest, &[0xDE, 0xAD]);
    }
}

#[test]
fn varint_refuses_empty_and_unfinished_input() {
    assert!(read_varint(&[]).is_none());
    assert!(read_varint(&[0x80]).is_none());
    assert!(read_varint(&[0xFF, 0xFF]).is_none());
}

#[test]
fn varint_refuses_an_eleventh_byte_and_an_overflowing_tenth() {
    let eleven = [0x80, 0x80, 0x80, 0x80, 0x80, 0x80, 0x80, 0x80, 0x80, 0x80, 0x01];
    assert!(read_varint(&eleven).is_none());
    let overflow = [0xFF, 0xFF, 0xFF, 0xFF, 0xFF, 0xFF, 0xFF, 0xFF, 0xFF, 0x02];
    assert!(read_varint(&overflow).is_none());
}

#[test]
fn varint_accepts_padded_encodings() {
    let (value, rest) = read_varint(&[0x80, 0x00, 0x07]).unwrap();
    assert_eq!(value, 0);
    assert_eq!(rest, &[0x07]);
}

#[test]
fn key_byte_is_field_times_eight_plus_wire_type() {
    assert_eq!(key_byte(1, VARINT), 0x08);
    assert_eq!(key_byte(1, LENGTH_DELIMITED), 0x0A);
    assert_eq!(key_byte(4, VARINT), 0x20);
    assert_eq!(key_byte(15, LENGTH_DELIMITED), 0x7A);
}

#[test]
fn append_bytes_keeps_what_was_there() {
    let mut buf = vec![1u8, 2];
    append_bytes(&mut buf, &[3, 4, 5]);
    assert_eq!(buf, vec![1, 2, 3, 4, 5]);
    append_bytes(&mut buf, &[]);
    assert_eq!(buf, vec![1, 2, 3, 4, 5]);
}

#[test]
fn uint_field_is_left_out_when_zero() {
    let mut buf = vec![9u8];
    write_uint_field(2, 0, &mut buf);
    assert_eq!(buf, vec![9]);
    write_uint_field(2, 3, &mut buf);
    assert_eq!(buf, vec![9, 0x10, 0x03]);
}

#[test]
fn uint_field_reads_back_or_defaults_to_zero() {
    let (value, rest) = read_uint_field(&[0x10, 0xAC, 0x02, 0x77], 2).unwrap();
    assert_eq!(value, 300);
    assert_eq!(rest, &[0x77]);
    let (value, rest) = read_uint_field(&[0x18, 0x01], 2).unwrap();
    assert_eq!(value, 0);
    assert_eq!(rest, &[0x18, 0x01]);
    let (value, rest) = read_uint_field(&[], 2).unwrap();
    assert_eq!(value, 0);
    assert!(rest.is_empty());
    assert!(read_uint_field(&[0x10], 2).is_none());
    assert!(read_uint_field(&[0x10, 0x80], 2).is_none());
}

#[test]
fn u32_field_refuses_what_does_not_fit() {
    let mut buf = Vec::new();
    write_uint_field(3, u32::MAX as u64, &mut buf);
    let (value, rest) = read_u32_field(&buf, 3).unwrap();
    assert_eq!(value, u32::MAX);
    assert!(rest.is_empty());
    let mut buf = Vec::new();
    write_uint_field(3, u32::MAX as u64 + 1, &mut buf);
    assert!(read_u32_field(&buf, 3).is_none());
    let (value, _) = read_u64_field(&buf, 3).unwrap();
    assert_eq!(value, u32::MAX as u64 + 1);
}

#[test]
fn bytes_field_is_key_length_payload() {
    let mut buf = Vec::new();
    write_bytes_field(2, &[0xAA, 0xBB], &mut buf);
    assert_eq!(buf, vec![0x12, 0x02, 0xAA, 0xBB]);
    let mut empty = Vec::new();
    write_bytes_field(2, &[], &mut empty);
    assert_eq!(empty, vec![0x12, 0x00]);
}

#[test]
fn bytes_field_reads_back_present_absent_and_broken() {
    let (payload, rest) = read_bytes_field(&[0x12, 0x02, 0xAA, 0xBB, 0x20], 2).unwrap();
    assert_eq!(payload, Some(&[0xAA, 0xBB][..]));
    assert_eq!(rest, &[0x20]);
    let (payload, rest) = read_bytes_field(&[0x12, 0x00], 2).unwrap();
    assert_eq!(payload, Some(&[][..]));
    assert!(rest.is_empty());
    let (payload, rest) = read_bytes_field(&[0x20, 0x04], 2).unwrap();
    assert_eq!(payload, None);
    assert_eq!(rest, &[0x20, 0x04]);
    assert!(read_bytes_field(&[0x12, 0x03, 0xAA, 0xBB], 2).is_none());
    assert!(read_bytes_field(&[0x12], 2).is_none());
}

#[test]
fn bytes_field_with_a_long_payload_has_a_two_byte_length() {
    let payload = vec![7u8; 200];
    let mut buf = Vec::new();
    write_bytes_field(1, &payload, &mut buf);
    assert_eq!(&buf[..3], &[0x0A, 0xC8, 0x01]);
    assert_eq!(buf.len(), 203);
    let (back, rest) = read_bytes_field(&buf, 1).unwrap();
    assert_eq!(back, Some(&payload[..]));
    assert!(rest.is_empty());
}

#[test]
fn string_field_is_left_out_when_empty() {
    let mut buf = Vec::new();
    write_string_field(1, "", &mut buf);
    assert!(buf.is_empty());
    write_string_field(1, "job", &mut buf);
    assert_eq!(buf, vec![0x0A, 0x03, b'j', b'o', b'b']);
}

#[test]
fn string_field_reads_back_utf8_and_refuses_the_rest() {
    let mut buf = Vec::new();
    write_string_field(4, "héllo ✓", &mut buf);
    buf.push(0x28);
    let (text, rest) = read_string_field(&buf, 4).unwrap();
    assert_eq!(text, "héllo ✓");
    assert_eq!(rest, &[0x28]);
    let (text, rest) = read_string_field(&[0x28, 0x01], 4).unwrap();
    assert_eq!(text, "");
    assert_eq!(rest, &[0x28, 0x01]);
    assert!(read_string_field(&[0x22, 0x02, 0xC3, 0x28], 4).is_none());
    assert!(read_string_field(&[0x22, 0x01, 0xFF], 4).is_none());
}

#[test]
fn repeated_field_takes_every_leading_occurrence() {
    let mut buf = Vec::new();
    write_bytes_field(1, &[1], &mut buf);
    write_bytes_field(1, &[], &mut buf);
    write_bytes_field(1, &[2, 3], &mut buf);
    write_uint_field(2, 9, &mut buf);
    let (items, rest) = read_repeated_field(&buf, 1).unwrap();
    assert_eq!(items, vec![vec![1u8], vec![], vec![2, 3]]);
    assert_eq!(rest, &[0x10, 0x09]);
    let (items, rest) = read_repeated_field(&[0x10, 0x09], 1).unwrap();
    assert!(items.is_empty());
    assert_eq!(rest, &[0x10, 0x09]);
    assert!(read_repeated_field(&[0x0A, 0x01, 0x05, 0x0A, 0x04, 0x00], 1).is_none());
}

/// Reads a varint the long way: seven bits per byte, at most ten bytes, the
/// tenth no more than 1.
fn varint_by_hand(input: &[u8]) -> Option<(u64, usize)> {
    let mut value: u128 = 0;
    for (i, byte) in input.iter().enumerate().take(10) {
        value |= ((byte & 0x7F) as u128) << (7 * i);
        if *byte < 0x80 {
            if i == 9 && *byte >= 2 {
                return None;
            }
            return Some((value as u64, i + 1));
        }
    }
    None
}

fn next(state: &mut u64) -> u64 {
    *state ^= *state << 13;
    *state ^= *state >> 7;
    *state ^= *state << 17;
    *state
}

#[test]
fn read_varint_agrees_with_reading_by_hand_on_short_inputs() {
    for a in 0..=255u8 {
        let one = [a];
        let expected = varint_by_hand(&one);
        let got = read_varint(&one).map(|(v, rest)| (v, one.len() - rest.len()));
        assert_eq!(got, expected);
        for b in 0..=255u8 {
            let two = [a, b];
            let expected = varint_by_hand(&two);
            let got = read_varint(&two).map(|(v, rest)| (v, two.len() - rest.len()));
            assert_eq!(got, expected);
        }
    }
}

#[test]
fn read_varint_agrees_with_reading_by_hand_on_long_inputs() {
    let mut state = 0x9E37_79B9_7F4A_7C15u64;
    for round in 0..20_000 {
        let len = (next(&mut state) % 13) as usize;
        let mut input = Vec::with_capacity(len);
        for _ in 0..len {
            let byte = next(&mut state) as u8;
            // mostly continuation bytes, so that long varints come up
            input.push(if round % 3 == 0 { byte } else { byte | 0x80 });
        }
        if round % 2 == 0 && !input.is_empty() {
            let last = input.len() - 1;
            input[last] &= 0x7F;
        }
        let expected = varint_by_hand(&input);
        let got = read_varint(&input).map(|(v, rest)| (v, input.len() - rest.len()));
        assert_eq!(got, expected, "input {:?}", input);
    }
}

#[test]
fn write_varint_reads_back_for_many_values() {
    let mut state = 0xD1B5_4A32_D192_ED03u64;
    for _ in 0..20_000 {
        let value = next(&mut state) >> (next(&mut state) % 64);
        let buf = varint_of(value);
        assert_eq!(varint_by_hand(&buf), Some((value, buf.len())));
        assert_eq!(read_varint(&buf).map(|(v, rest)| (v, rest.len())), Some((value, 0)));
    }
}

#[test]
fn fields_are_written_as_prost_writes_them() {
    let mut ours = Vec::new();
    write_string_field(1, "job-1", &mut ours);
    write_uint_field(2, 300, &mut ours);
    write_bytes_field(4, &[1, 2, 3], &mut ours);
    write_uint_field(6, u64::MAX, &mut ours);
    let mut theirs = Vec::new();
    prost::encoding::string::encode(1, &"job-1".to_string(), &mut theirs);
    prost::encoding::uint32::encode(2, &300, &mut theirs);
    prost::encoding::bytes::encode(4, &vec![1u8, 2, 3], &mut theirs);
    prost::encoding::uint64::encode(6, &u64::MAX, &mut theirs);
    assert_eq!(ours, theirs);
}

#[test]
fn varints_are_written_and_read_as_prost_does() {
    let mut state = 0xA076_1D64_78BD_642Fu64;
    for round in 0..20_000 {
        let value = next(&mut state) >> (next(&mut state) % 64);
        let mut theirs = Vec::new();
        prost::encoding::encode_varint(value, &mut theirs);
        assert_eq!(varint_of(value), theirs);

        let len = (next(&mut state) % 13) as usize;
        let mut input = Vec::with_capacity(len);
        for _ in 0..len {
            let byte = next(&mut state) as u8;
            input.push(if round % 3 == 0 { byte } else { byte | 0x80 });
        }
        if round % 2 == 0 && !input.is_empty() {
            let last = input.len() - 1;
            input[last] &= 0x7F;
        }
        let mut cursor = &input[..];
        let expected = prost::encoding::decode_varint(&mut cursor).ok().map(|v| (v, cursor));
        assert_eq!(read_varint(&input), expected, "input {:?}", input);
    }
}
