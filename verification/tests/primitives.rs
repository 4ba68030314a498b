use aseprite_parser::parser::primitives::{
    byte_to_i8, dword_to_long, parse_long64, parse_point, parse_qword, parse_rect, parse_size,
    parse_string, parse_uuid, take, Point, Rect, Size,
};
use aseprite_parser::parser::{
    parse_byte, parse_dword, parse_long, parse_magic_word, parse_short, parse_word, skip_bytes,
    ErrorKind, ParseError,
};

type E<'a> = nom::error::Error<&'a [u8]>;

use nom::number::complete::{le_i16, le_i32, le_i64, le_u16, le_u32, le_u64, le_u8};

#[test]
fn word_is_little_endian() {
    let input = [0x34u8, 0x12, 0xff];
    assert_eq!(parse_word(&input), Ok((&input[2..], 0x1234)));
}

#[test]
fn dword_is_little_endian() {
    let input = [0x78u8, 0x56, 0x34, 0x12];
    assert_eq!(parse_dword(&input), Ok((&input[4..], 0x1234_5678)));
}

#[test]
fn qword_is_little_endian() {
    let input = [1u8, 2, 3, 4, 5, 6, 7, 8, 9];
    assert_eq!(parse_qword(&input), Ok((&input[8..], 0x0807_0605_0403_0201)));
}

#[test]
fn signed_values_use_twos_complement() {
    assert_eq!(parse_short(&[0xfe, 0xff]), Ok((&[][..], -2)));
    assert_eq!(parse_short(&[0x00, 0x80]), Ok((&[][..], i16::MIN)));
    assert_eq!(parse_long(&[0xff, 0xff, 0xff, 0x7f]), Ok((&[][..], i32::MAX)));
    assert_eq!(parse_long(&[0x00, 0x00, 0x00, 0x80]), Ok((&[][..], i32::MIN)));
    assert_eq!(parse_long64(&[0xff; 8]), Ok((&[][..], -1i64)));
    assert_eq!(byte_to_i8(0xff), -1);
    assert_eq!(byte_to_i8(0x7f), 127);
    assert_eq!(dword_to_long(0xffff_fffe), -2);
}

#[test]
fn short_input_fails_with_eof_at_the_input() {
    let input = [0x01u8, 0x02, 0x03];
    assert_eq!(parse_dword(&input), Err(ParseError { input: &input[..], code: ErrorKind::Eof }));
    assert_eq!(parse_word(&[]), Err(ParseError { input: &[][..], code: ErrorKind::Eof }));
    assert_eq!(parse_byte(&[]), Err(ParseError { input: &[][..], code: ErrorKind::Eof }));
    assert!(parse_qword(&input).is_err());
}

#[test]
fn byte_reads_one() {
    assert_eq!(parse_byte(&[7, 8]), Ok((&[8u8][..], 7)));
}

#[test]
fn skip_and_take() {
    let input = [1u8, 2, 3, 4];
    assert_eq!(skip_bytes(&input, 3), Ok((&input[3..], ())));
    assert_eq!(skip_bytes(&input, 5), Err(ParseError { input: &input[..], code: ErrorKind::Eof }));
    assert_eq!(take(&input, 2), Ok((&input[2..], &input[..2])));
    assert_eq!(take(&input, 4), Ok((&input[4..], &input[..])));
}

#[test]
fn string_is_length_prefixed_utf8() {
    let input = [3u8, 0, b'a', b'b', b'c', 9];
    assert_eq!(parse_string(&input), Ok((&input[5..], "abc".to_string())));
    let utf8 = [2u8, 0, 0xc3, 0xa9];
    assert_eq!(parse_string(&utf8), Ok((&utf8[4..], "é".to_string())));
    assert_eq!(parse_string(&[0, 0]), Ok((&[][..], String::new())));
}

#[test]
fn string_that_is_not_utf8_fails_with_verify_after_it() {
    let input = [2u8, 0, 0xff, 0xfe, 1];
    assert_eq!(parse_string(&input), Err(ParseError { input: &input[4..], code: ErrorKind::Verify }));
}

#[test]
fn string_longer_than_input_fails_with_eof() {
    let input = [5u8, 0, b'a'];
    assert_eq!(parse_string(&input), Err(ParseError { input: &input[2..], code: ErrorKind::Eof }));
}

#[test]
fn uuid_reads_sixteen_bytes() {
    let mut input = [0u8; 17];
    for (i, b) in input.iter_mut().enumerate() {
        *b = i as u8;
    }
    let mut expected = [0u8; 16];
    expected.copy_from_slice(&input[..16]);
    assert_eq!(parse_uuid(&input), Ok((&input[16..], expected)));
    assert!(parse_uuid(&input[..15]).is_err());
}

#[test]
fn magic_word_must_match() {
    let good = [0xfau8, 0xf1, 1];
    assert_eq!(parse_magic_word::<0xF1FA>(&good), Ok((&good[2..], 0xF1FA)));
    let bad = [0xfbu8, 0xf1, 1];
    assert_eq!(
        parse_magic_word::<0xF1FA>(&bad),
        Err(ParseError { input: &bad[..], code: ErrorKind::Verify })
    );
    assert_eq!(
        parse_magic_word::<0xF1FA>(&[0xfa]),
        Err(ParseError { input: &[0xfa][..], code: ErrorKind::Eof })
    );
}

#[test]
fn point_size_rect() {
    let input = [1u8, 0, 0, 0, 0xff, 0xff, 0xff, 0xff, 3, 0, 0, 0, 4, 0, 0, 0];
    assert_eq!(parse_point(&input), Ok((&input[8..], Point { x: 1, y: -1 })));
    assert_eq!(parse_size(&input[8..]), Ok((&input[16..], Size { w: 3, h: 4 })));
    assert_eq!(
        parse_rect(&input),
        Ok((&input[16..], Rect { origin: Point { x: 1, y: -1 }, size: Size { w: 3, h: 4 } }))
    );
}

#[test]
fn primitives_agree_with_nom() {
    let data: Vec<u8> = (0..64u32).map(|i| (i.wrapping_mul(97).wrapping_add(13) % 256) as u8).collect();
    for start in 0..data.len() {
        let s = &data[start..];
        assert_eq!(parse_byte(s).ok(), le_u8::<_, E>(s).ok());
        assert_eq!(parse_word(s).ok(), le_u16::<_, E>(s).ok());
        assert_eq!(parse_short(s).ok(), le_i16::<_, E>(s).ok());
        assert_eq!(parse_dword(s).ok(), le_u32::<_, E>(s).ok());
        assert_eq!(parse_long(s).ok(), le_i32::<_, E>(s).ok());
        assert_eq!(parse_qword(s).ok(), le_u64::<_, E>(s).ok());
        assert_eq!(parse_long64(s).ok(), le_i64::<_, E>(s).ok());
    }
}
