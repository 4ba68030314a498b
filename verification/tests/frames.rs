use aseprite_parser::parser::chunk::{LayerChunk, PaletteChunk};
use aseprite_parser::parser::{
    parse_aseprite_chunk, parse_aseprite_frame, parse_aseprite_frame_header, AsepriteChunk,
    AsepriteFrameHeader, ErrorKind, Frame, ParseError,
};

fn frame_header(old: u16, new: u32, bytes: u32) -> Vec<u8> {
    let mut h = bytes.to_le_bytes().to_vec();
    h.extend(0xF1FAu16.to_le_bytes());
    h.extend(old.to_le_bytes());
    h.extend(100u16.to_le_bytes());
    h.extend([0u8, 0]);
    h.extend(new.to_le_bytes());
    h
}

fn chunk(ty: u16, body: &[u8]) -> Vec<u8> {
    let mut out = (body.len() as u32 + 6).to_le_bytes().to_vec();
    out.extend(ty.to_le_bytes());
    out.extend_from_slice(body);
    out
}

#[test]
fn frame_header_fields() {
    let h = frame_header(2, 0, 40);
    assert_eq!(
        parse_aseprite_frame_header(&h),
        Ok((
            &[][..],
            AsepriteFrameHeader {
                bytes_in_frame: 40,
                magic_number: 0xF1FA,
                number_of_chunks_old: 2,
                frame_duration: 100,
                number_of_chunks_new: 0,
            }
        ))
    );
}

#[test]
fn frame_header_with_wrong_magic_fails_with_verify_at_the_magic() {
    let mut h = frame_header(2, 0, 40);
    h[4] = 0;
    assert_eq!(
        parse_aseprite_frame_header(&h),
        Err(ParseError { input: &h[4..], code: ErrorKind::Verify })
    );
}

#[test]
fn frame_with_old_chunk_count() {
    let c1 = chunk(0x2017, &[]);
    let c2 = chunk(0x2018, &[1, 2]);
    let mut input = frame_header(2, 99, 16 + 14);
    input.extend(&c1);
    input.extend(&c2);
    input.push(0x55);
    let (rest, f) = parse_aseprite_frame(&input).unwrap();
    assert_eq!(rest, &[0x55u8][..]);
    assert_eq!(f.header.number_of_chunks_old, 2);
    assert_eq!(
        f.chunks,
        vec![
            AsepriteChunk { chunk_size: 6, chunk_type: 0x2017, raw: &[] },
            AsepriteChunk { chunk_size: 8, chunk_type: 0x2018, raw: &[1, 2] },
        ]
    );
}

#[test]
fn frame_with_new_chunk_count() {
    let mut input = frame_header(0xFFFF, 3, 0);
    for _ in 0..3 {
        input.extend(chunk(0x2017, &[7]));
    }
    let (rest, f) = parse_aseprite_frame(&input).unwrap();
    assert!(rest.is_empty());
    assert_eq!(f.chunks.len(), 3);
}

#[test]
fn frame_missing_a_chunk_fails_where_the_chunk_should_be() {
    let mut input = frame_header(2, 0, 0);
    input.extend(chunk(0x2017, &[]));
    assert_eq!(
        parse_aseprite_frame(&input),
        Err(ParseError { input: &input[22..], code: ErrorKind::Eof })
    );
}

#[test]
fn empty_frame() {
    let input = frame_header(0, 0, 16);
    assert_eq!(
        parse_aseprite_frame(&input),
        Ok((
            &[][..],
            Frame {
                header: AsepriteFrameHeader {
                    bytes_in_frame: 16,
                    magic_number: 0xF1FA,
                    number_of_chunks_old: 0,
                    frame_duration: 100,
                    number_of_chunks_new: 0,
                },
                chunks: vec![],
            }
        ))
    );
}

#[test]
fn frames_read_one_after_another() {
    let mut first = frame_header(1, 0, 0);
    first.extend(chunk(0x2017, &[1]));
    let mut second = frame_header(1, 0, 0);
    second.extend(chunk(0x2018, &[2, 3]));
    let mut both = first.clone();
    both.extend(&second);
    let (rest, f1) = parse_aseprite_frame(&both).unwrap();
    let (alone_rest, alone) = parse_aseprite_frame(&first).unwrap();
    assert!(alone_rest.is_empty());
    assert_eq!(f1, alone);
    assert_eq!(rest, &second[..]);
    let (rest2, f2) = parse_aseprite_frame(rest).unwrap();
    assert!(rest2.is_empty());
    assert_eq!(f2.chunks[0].raw, &[2u8, 3][..]);
}

#[test]
fn frame_occupies_header_plus_chunk_sizes() {
    let mut input = frame_header(2, 0, 0);
    input.extend(chunk(0x2017, &[1, 2, 3]));
    input.extend(chunk(0x2017, &[]));
    input.extend([9u8; 4]);
    let (rest, f) = parse_aseprite_frame(&input).unwrap();
    let total: usize = f.chunks.iter().map(|c| c.chunk_size as usize).sum();
    assert_eq!(input.len() - rest.len(), 16 + total);
}

#[test]
fn chunk_is_read_the_same_whatever_follows() {
    let c = chunk(0x2004, &[1, 2, 3]);
    let (rest, v) = parse_aseprite_chunk(&c).unwrap();
    assert!(rest.is_empty());
    let mut longer = c.clone();
    longer.extend([4u8, 5]);
    let (rest2, v2) = parse_aseprite_chunk(&longer).unwrap();
    assert_eq!(v, v2);
    assert_eq!(rest2, &[4u8, 5][..]);
    assert_eq!(longer.len() - rest2.len(), v2.chunk_size as usize);
}

#[test]
fn typed_chunks_from_a_frame() {
    let mut layer = Vec::new();
    for v in [0u16, 0, 0, 0, 0, 0] {
        layer.extend(v.to_le_bytes());
    }
    layer.push(255);
    layer.extend([0u8; 3]);
    layer.extend(2u16.to_le_bytes());
    layer.extend(b"bg");
    let mut palette = 1u32.to_le_bytes().to_vec();
    palette.extend(0u32.to_le_bytes());
    palette.extend(0u32.to_le_bytes());
    palette.extend([0u8; 8]);
    palette.extend(0u16.to_le_bytes());
    palette.extend([1u8, 2, 3, 4]);
    let mut input = frame_header(2, 0, 0);
    input.extend(chunk(0x2004, &layer));
    input.extend(chunk(0x2019, &palette));
    let (_, f) = parse_aseprite_frame(&input).unwrap();
    let (_, l) = f.chunks[0].parse_as::<LayerChunk>().unwrap();
    assert_eq!(l.name, "bg");
    assert_eq!(l.opacity, 255);
    let (_, p) = f.chunks[1].parse_as::<PaletteChunk>().unwrap();
    assert_eq!(p.entries.len(), 1);
    assert!(f.chunks[0].parse_as::<PaletteChunk>().is_err());
}

fn is_suffix_of(t: &[u8], s: &[u8]) -> bool {
    t.len() <= s.len() && &s[s.len() - t.len()..] == t
}

#[test]
fn every_result_lies_within_the_input() {
    let mut input = frame_header(2, 0, 0);
    input.extend(chunk(0x2017, &[1, 2, 3]));
    input.extend(chunk(0x2018, &[4]));
    for end in 0..=input.len() {
        let s = &input[..end];
        match parse_aseprite_frame(s) {
            Ok((rest, _)) => assert!(is_suffix_of(rest, s)),
            Err(e) => assert!(is_suffix_of(e.input, s)),
        }
        match parse_aseprite_chunk(s) {
            Ok((rest, _)) => assert!(is_suffix_of(rest, s)),
            Err(e) => assert!(is_suffix_of(e.input, s)),
        }
    }
    assert!(parse_aseprite_frame(&input[..input.len() - 1]).is_err());
    assert!(parse_aseprite_frame(&input).is_ok());
}
