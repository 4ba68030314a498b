use aseprite_parser::parser::chunk::{
    CelChunk, CelData, CelExtraChunk, ColorProfileChunk, ExternalFileEntry, ExternalFilesChunk,
    LayerChunk, MaskChunk, OldPalette04Chunk, OldPalette11Chunk, OldPaletteColor,
    OldPalettePacket, PaletteChunk, PaletteEntry, PathChunk, Point, PropValue, PropertiesMap,
    Rect, SliceChunk, SliceKey, Size, Tag, TagsChunk, TilesetChunk, UserDataChunk,
};
use aseprite_parser::parser::{
    parse_aseprite_chunk, AsepriteChunk, AsepriteChunkParser, ErrorKind, ParseError,
};

fn w(v: u16) -> Vec<u8> {
    v.to_le_bytes().to_vec()
}

fn dw(v: u32) -> Vec<u8> {
    v.to_le_bytes().to_vec()
}

fn s(text: &str) -> Vec<u8> {
    let mut out = w(text.len() as u16);
    out.extend_from_slice(text.as_bytes());
    out
}

fn chunk_bytes(ty: u16, body: &[u8]) -> Vec<u8> {
    let mut out = dw(body.len() as u32 + 6);
    out.extend(w(ty));
    out.extend_from_slice(body);
    out
}

#[test]
fn chunk_framing() {
    let bytes = chunk_bytes(0x2017, &[1, 2, 3]);
    let mut input = bytes.clone();
    input.push(0xaa);
    let (rest, c) = parse_aseprite_chunk(&input).unwrap();
    assert_eq!(rest, &[0xaa][..]);
    assert_eq!(c, AsepriteChunk { chunk_size: 9, chunk_type: 0x2017, raw: &[1, 2, 3] });
}

#[test]
fn chunk_size_below_header_fails_with_verify() {
    let mut input = dw(5);
    input.extend(w(0x2017));
    input.push(1);
    assert_eq!(
        parse_aseprite_chunk(&input),
        Err(ParseError { input: &input[6..], code: ErrorKind::Verify })
    );
}

#[test]
fn chunk_body_shorter_than_size_fails_with_eof() {
    let mut input = dw(10);
    input.extend(w(0x2017));
    input.extend([1, 2]);
    assert_eq!(
        parse_aseprite_chunk(&input),
        Err(ParseError { input: &input[6..], code: ErrorKind::Eof })
    );
    assert!(parse_aseprite_chunk(&[1, 0, 0]).is_err());
}

#[test]
fn parse_as_checks_type_and_consumes_body() {
    let body = [1u8, 0, 0, 0, 2, 0, 0, 0, 3, 0, 0, 0, 4, 0, 0, 0, 5, 0, 0, 0];
    let mut full = body.to_vec();
    full.extend([0u8; 16]);
    let c = AsepriteChunk { chunk_size: full.len() as u32 + 6, chunk_type: 0x2006, raw: &full };
    let (rest, v) = c.parse_as::<CelExtraChunk>().unwrap();
    assert!(rest.is_empty());
    assert_eq!(v, CelExtraChunk { flags: 1, precise_x: 2, precise_y: 3, width: 4, height: 5 });

    let wrong = AsepriteChunk { chunk_size: full.len() as u32 + 6, chunk_type: 0x2005, raw: &full };
    assert_eq!(
        wrong.parse_as::<CelExtraChunk>(),
        Err(ParseError { input: &full[..], code: ErrorKind::Verify })
    );

    let mut longer = full.clone();
    longer.push(9);
    let extra = AsepriteChunk { chunk_size: longer.len() as u32 + 6, chunk_type: 0x2006, raw: &longer };
    assert_eq!(
        extra.parse_as::<CelExtraChunk>(),
        Err(ParseError { input: &longer[36..], code: ErrorKind::Eof })
    );
}

#[test]
fn old_palette_packets() {
    let mut body = w(2);
    body.extend([0u8, 2, 10, 20, 30, 40, 50, 60]);
    body.extend([5u8, 0]);
    for i in 0..256u32 {
        body.extend([i as u8, 0, 0]);
    }
    let (rest, p) = OldPalette04Chunk::parse_data(&body).unwrap();
    assert!(rest.is_empty());
    assert_eq!(p.packets.len(), 2);
    assert_eq!(
        p.packets[0],
        OldPalettePacket {
            skip: 0,
            count: 2,
            colors: vec![
                OldPaletteColor { r: 10, g: 20, b: 30 },
                OldPaletteColor { r: 40, g: 50, b: 60 }
            ],
        }
    );
    assert_eq!(p.packets[1].skip, 5);
    assert_eq!(p.packets[1].count, 0);
    assert_eq!(p.packets[1].colors.len(), 256);
    assert_eq!(p.packets[1].colors[255], OldPaletteColor { r: 255, g: 0, b: 0 });
    let (_, q) = OldPalette11Chunk::parse_data(&body).unwrap();
    assert_eq!(q.packets, p.packets);
    assert_eq!(OldPalette04Chunk::CHUNK_TYPE, 0x0004);
    assert_eq!(OldPalette11Chunk::CHUNK_TYPE, 0x0011);
}

#[test]
fn old_palette_short_packet_fails() {
    let mut body = w(1);
    body.extend([0u8, 2, 10, 20, 30, 40]);
    assert_eq!(
        OldPalette04Chunk::parse_data(&body),
        Err(ParseError { input: &body[8..], code: ErrorKind::Eof })
    );
}

fn layer_body(layer_type: u16) -> Vec<u8> {
    let mut body = Vec::new();
    for v in [1u16, layer_type, 2, 16, 32, 3] {
        body.extend(w(v));
    }
    body.push(200);
    body.extend([0u8; 3]);
    body.extend(s("Layer 1"));
    body
}

#[test]
fn layer_chunk() {
    let body = layer_body(0);
    let (rest, l) = LayerChunk::parse_data(&body).unwrap();
    assert!(rest.is_empty());
    assert_eq!(
        l,
        LayerChunk {
            flags: 1,
            layer_type: 0,
            child_level: 2,
            default_width: 16,
            default_height: 32,
            blend_mode: 3,
            opacity: 200,
            name: "Layer 1".to_string(),
            tileset_index: None,
            uuid: None,
        }
    );
}

#[test]
fn tilemap_layer_has_tileset_index_and_uuid() {
    let mut body = layer_body(2);
    body.extend(dw(7));
    body.extend([9u8; 16]);
    let (rest, l) = LayerChunk::parse_data(&body).unwrap();
    assert!(rest.is_empty());
    assert_eq!(l.tileset_index, Some(7));
    assert_eq!(l.uuid, Some([9u8; 16]));
}

#[test]
fn layer_with_partial_uuid_fails() {
    let mut body = layer_body(0);
    let at = body.len();
    body.extend([9u8; 5]);
    assert_eq!(
        LayerChunk::parse_data(&body),
        Err(ParseError { input: &body[at..], code: ErrorKind::Eof })
    );
}

fn cel_head(cel_type: u16) -> Vec<u8> {
    let mut body = w(3);
    body.extend((-5i16).to_le_bytes());
    body.extend(7i16.to_le_bytes());
    body.push(255);
    body.extend(w(cel_type));
    body.extend(2i16.to_le_bytes());
    body.extend([0u8; 5]);
    body
}

#[test]
fn raw_cel_takes_all_pixels() {
    let mut body = cel_head(0);
    body.extend(w(2));
    body.extend(w(1));
    body.extend([1u8, 2, 3, 4, 5, 6, 7, 8]);
    let (rest, c) = CelChunk::parse_data(&body).unwrap();
    assert!(rest.is_empty());
    assert_eq!(
        c,
        CelChunk {
            layer_index: 3,
            x: -5,
            y: 7,
            opacity: 255,
            z_index: 2,
            data: CelData::RawImage { w: 2, h: 1, pixels: &[1, 2, 3, 4, 5, 6, 7, 8] },
        }
    );
}

#[test]
fn linked_cel() {
    let mut body = cel_head(1);
    body.extend(w(4));
    let (rest, c) = CelChunk::parse_data(&body).unwrap();
    assert!(rest.is_empty());
    assert_eq!(c.data, CelData::Linked { frame: 4 });
}

#[test]
fn compressed_cels() {
    let mut body = cel_head(2);
    body.extend(w(8));
    body.extend(w(8));
    body.extend([0x78u8, 0x9c]);
    let (_, c) = CelChunk::parse_data(&body).unwrap();
    assert_eq!(c.data, CelData::CompressedImage { w: 8, h: 8, zlib: &[0x78, 0x9c] });

    let mut body = cel_head(3);
    body.extend(w(4));
    body.extend(w(5));
    body.extend(w(32));
    for m in [0x1fff_ffffu32, 0x2000_0000, 0x4000_0000, 0x8000_0000] {
        body.extend(dw(m));
    }
    body.extend([0u8; 10]);
    body.extend([1u8, 2]);
    let (rest, c) = CelChunk::parse_data(&body).unwrap();
    assert!(rest.is_empty());
    assert_eq!(
        c.data,
        CelData::CompressedTilemap {
            w: 4,
            h: 5,
            bits_per_tile: 32,
            tile_id_mask: 0x1fff_ffff,
            x_flip_mask: 0x2000_0000,
            y_flip_mask: 0x4000_0000,
            diag_flip_mask: 0x8000_0000,
            zlib_tiles: &[1, 2],
        }
    );
}

#[test]
fn unknown_cel_type_fails_with_verify() {
    let mut body = cel_head(4);
    let at = body.len();
    body.extend([1u8, 2, 3]);
    assert_eq!(
        CelChunk::parse_data(&body),
        Err(ParseError { input: &body[at..], code: ErrorKind::Verify })
    );
}

#[test]
fn color_profiles() {
    let mut body = w(1);
    body.extend(w(1));
    body.extend(0x0001_0000i32.to_le_bytes());
    body.extend([0u8; 8]);
    let (rest, c) = ColorProfileChunk::parse_data(&body).unwrap();
    assert!(rest.is_empty());
    assert_eq!(c, ColorProfileChunk { kind: 1, flags: 1, gamma: 0x0001_0000, icc: None });

    let mut body = w(2);
    body.extend(w(0));
    body.extend(0i32.to_le_bytes());
    body.extend([0u8; 8]);
    body.extend(dw(3));
    body.extend([7u8, 8, 9]);
    let (rest, c) = ColorProfileChunk::parse_data(&body).unwrap();
    assert!(rest.is_empty());
    assert_eq!(c.icc, Some(&[7u8, 8, 9][..]));
}

#[test]
fn external_files() {
    let mut body = dw(2);
    body.extend([0u8; 8]);
    body.extend(dw(1));
    body.push(0);
    body.extend([0u8; 7]);
    body.extend(s("pal.ase"));
    body.extend(dw(2));
    body.push(1);
    body.extend([0u8; 7]);
    body.extend(s("tiles.ase"));
    let (rest, c) = ExternalFilesChunk::parse_data(&body).unwrap();
    assert!(rest.is_empty());
    assert_eq!(
        c,
        ExternalFilesChunk {
            entries: vec![
                ExternalFileEntry { id: 1, kind: 0, name: "pal.ase".to_string() },
                ExternalFileEntry { id: 2, kind: 1, name: "tiles.ase".to_string() },
            ],
        }
    );
}

#[test]
fn mask_bitmap_size_rounds_rows_up() {
    let mut body = 1i16.to_le_bytes().to_vec();
    body.extend(2i16.to_le_bytes());
    body.extend(w(9));
    body.extend(w(3));
    body.extend([0u8; 8]);
    body.extend(s("m"));
    body.extend([1u8, 2, 3, 4, 5, 6, 7]);
    let (rest, m) = MaskChunk::parse_data(&body).unwrap();
    assert_eq!(rest, &[7u8][..]);
    assert_eq!(
        m,
        MaskChunk { x: 1, y: 2, width: 9, height: 3, name: "m".to_string(), bitmap: &[1, 2, 3, 4, 5, 6] }
    );
}

#[test]
fn path_reads_nothing() {
    let body = [1u8, 2];
    assert_eq!(PathChunk::parse_data(&body), Ok((&body[..], PathChunk)));
    assert_eq!(PathChunk::CHUNK_TYPE, 0x2017);
}

fn tag_bytes(from: u16, to: u16, name: &str) -> Vec<u8> {
    let mut b = w(from);
    b.extend(w(to));
    b.push(2);
    b.extend(w(3));
    b.extend([0u8; 6]);
    b.extend([255u8, 128, 0]);
    b.push(0);
    b.extend(s(name));
    b
}

#[test]
fn tags() {
    let mut body = w(2);
    body.extend([0u8; 8]);
    body.extend(tag_bytes(0, 3, "walk"));
    body.extend(tag_bytes(4, 7, "run"));
    let (rest, t) = TagsChunk::parse_data(&body).unwrap();
    assert!(rest.is_empty());
    assert_eq!(
        t.tags,
        vec![
            Tag { from_frame: 0, to_frame: 3, direction: 2, repeat: 3, color: [255, 128, 0], name: "walk".to_string() },
            Tag { from_frame: 4, to_frame: 7, direction: 2, repeat: 3, color: [255, 128, 0], name: "run".to_string() },
        ]
    );
}

fn palette_head(first: u32, last: u32) -> Vec<u8> {
    let mut body = dw(last + 1);
    body.extend(dw(first));
    body.extend(dw(last));
    body.extend([0u8; 8]);
    body
}

#[test]
fn palette_entries_span_first_to_last() {
    let mut body = palette_head(1, 2);
    body.extend(w(1));
    body.extend([1u8, 2, 3, 4]);
    body.extend(s("red"));
    body.extend(w(0));
    body.extend([5u8, 6, 7, 8]);
    let (rest, p) = PaletteChunk::parse_data(&body).unwrap();
    assert!(rest.is_empty());
    assert_eq!(
        p,
        PaletteChunk {
            new_size: 3,
            first_index: 1,
            last_index: 2,
            entries: vec![
                PaletteEntry { flags: 1, r: 1, g: 2, b: 3, a: 4, name: Some("red".to_string()) },
                PaletteEntry { flags: 0, r: 5, g: 6, b: 7, a: 8, name: None },
            ],
        }
    );
}

#[test]
fn palette_with_last_below_first_has_one_entry() {
    let mut body = palette_head(5, 2);
    body.extend(w(0));
    body.extend([5u8, 6, 7, 8]);
    let (rest, p) = PaletteChunk::parse_data(&body).unwrap();
    assert!(rest.is_empty());
    assert_eq!(p.entries.len(), 1);
}

#[test]
fn palette_over_the_whole_index_range_runs_out_of_input() {
    let mut body = palette_head(0, u32::MAX);
    body.extend(w(0));
    body.extend([5u8, 6, 7, 8]);
    assert!(PaletteChunk::parse_data(&body).is_err());
}

#[test]
fn slices() {
    let mut body = dw(1);
    body.extend(dw(3));
    body.extend(dw(0));
    body.extend(s("button"));
    body.extend(dw(0));
    body.extend(1i32.to_le_bytes());
    body.extend((-2i32).to_le_bytes());
    body.extend(dw(10));
    body.extend(dw(20));
    body.extend(3i32.to_le_bytes());
    body.extend(4i32.to_le_bytes());
    body.extend(dw(0xffff_ffff));
    body.extend(dw(6));
    body.extend(7i32.to_le_bytes());
    body.extend(8i32.to_le_bytes());
    let (rest, c) = SliceChunk::parse_data(&body).unwrap();
    assert!(rest.is_empty());
    assert_eq!(
        c,
        SliceChunk {
            flags: 3,
            name: "button".to_string(),
            keys: vec![SliceKey {
                frame: 0,
                x: 1,
                y: -2,
                width: 10,
                height: 20,
                ninepatch: Some(Rect { origin: Point { x: 3, y: 4 }, size: Size { w: -1, h: 6 } }),
                pivot: Some(Point { x: 7, y: 8 }),
            }],
        }
    );
}

#[test]
fn slice_without_flags_has_plain_keys() {
    let mut body = dw(2);
    body.extend(dw(0));
    body.extend(dw(0));
    body.extend(s(""));
    for f in 0..2u32 {
        body.extend(dw(f));
        body.extend([0u8; 16]);
    }
    let (rest, c) = SliceChunk::parse_data(&body).unwrap();
    assert!(rest.is_empty());
    assert_eq!(c.keys.len(), 2);
    assert_eq!(c.keys[1].frame, 1);
    assert_eq!(c.keys[1].ninepatch, None);
    assert_eq!(c.keys[1].pivot, None);
}

#[test]
fn tileset_with_external_and_image() {
    let mut body = dw(1);
    body.extend(dw(3));
    body.extend(dw(10));
    body.extend(w(16));
    body.extend(w(8));
    body.extend(1i16.to_le_bytes());
    body.extend([0u8; 14]);
    body.extend(s("ts"));
    body.extend(dw(4));
    body.extend(dw(5));
    body.extend(dw(2));
    body.extend([0xaau8, 0xbb]);
    let (rest, t) = TilesetChunk::parse_data(&body).unwrap();
    assert!(rest.is_empty());
    assert_eq!(
        t,
        TilesetChunk {
            id: 1,
            flags: 3,
            num_tiles: 10,
            tile_width: 16,
            tile_height: 8,
            base_index: 1,
            name: "ts".to_string(),
            external: Some((4, 5)),
            compressed_image: Some(&[0xaa, 0xbb]),
        }
    );
}

#[test]
fn tileset_without_flags() {
    let mut body = dw(1);
    body.extend(dw(0));
    body.extend(dw(10));
    body.extend(w(16));
    body.extend(w(8));
    body.extend(1i16.to_le_bytes());
    body.extend([0u8; 14]);
    body.extend(s("ts"));
    let (rest, t) = TilesetChunk::parse_data(&body).unwrap();
    assert!(rest.is_empty());
    assert_eq!(t.external, None);
    assert_eq!(t.compressed_image, None);
}

fn prop(name: &str, ty: u16, value: &[u8]) -> Vec<u8> {
    let mut b = s(name);
    b.extend(w(ty));
    b.extend_from_slice(value);
    b
}

#[test]
fn user_data_text_and_color() {
    let mut body = dw(3);
    body.extend(s("hello"));
    body.extend([1u8, 2, 3, 4]);
    let (rest, u) = UserDataChunk::parse_data(&body).unwrap();
    assert!(rest.is_empty());
    assert_eq!(
        u,
        UserDataChunk { text: Some("hello".to_string()), color: Some((1, 2, 3, 4)), maps: vec![] }
    );
}

#[test]
fn user_data_properties() {
    let mut props = Vec::new();
    props.extend(prop("b", 0x0001, &[2]));
    props.extend(prop("i8", 0x0002, &[0xff]));
    props.extend(prop("f", 0x000B, &1.5f32.to_le_bytes()));
    props.extend(prop("d", 0x000C, &2.5f64.to_le_bytes()));
    let mut vector = dw(2);
    vector.extend(w(0));
    vector.extend(w(0x0005));
    vector.extend(w(77));
    vector.extend(w(0x000D));
    vector.extend(s("x"));
    props.extend(prop("v", 0x0011, &vector));
    let mut nested = dw(1);
    nested.extend(prop("n", 0x0003, &[9]));
    props.extend(prop("m", 0x0012, &nested));
    props.extend(prop("u", 0x0013, &[4u8; 16]));
    let mut body = dw(4);
    body.extend(dw(0));
    body.extend(dw(1));
    body.extend(dw(42));
    body.extend(dw(7));
    body.extend(props);
    let (rest, u) = UserDataChunk::parse_data(&body).unwrap();
    assert!(rest.is_empty());
    assert_eq!(u.text, None);
    assert_eq!(u.color, None);
    assert_eq!(
        u.maps,
        vec![PropertiesMap {
            key: 42,
            props: vec![
                ("b".to_string(), PropValue::Bool(true)),
                ("i8".to_string(), PropValue::I8(-1)),
                ("f".to_string(), PropValue::Float(1.5f32.to_bits())),
                ("d".to_string(), PropValue::Double(2.5f64.to_bits())),
                (
                    "v".to_string(),
                    PropValue::Vector(vec![PropValue::U16(77), PropValue::String("x".to_string())])
                ),
                ("m".to_string(), PropValue::Properties(vec![("n".to_string(), PropValue::U8(9))])),
                ("u".to_string(), PropValue::Uuid([4u8; 16])),
            ],
        }]
    );
}

#[test]
fn typed_vector_and_geometry() {
    let mut vector = dw(2);
    vector.extend(w(0x000E));
    for v in [1i32, 2, 3, 4] {
        vector.extend(v.to_le_bytes());
    }
    let mut rect = Vec::new();
    for v in [5i32, 6, 7, 8] {
        rect.extend(v.to_le_bytes());
    }
    let mut props = prop("pts", 0x0011, &vector);
    props.extend(prop("r", 0x0010, &rect));
    props.extend(prop("sz", 0x000F, &rect[8..]));
    props.extend(prop("q", 0x0009, &u64::MAX.to_le_bytes()));
    props.extend(prop("fx", 0x000A, &0x0001_8000i32.to_le_bytes()));
    let mut body = dw(4);
    body.extend(dw(0));
    body.extend(dw(1));
    body.extend(dw(0));
    body.extend(dw(5));
    body.extend(props);
    let (_, u) = UserDataChunk::parse_data(&body).unwrap();
    let p = &u.maps[0].props;
    assert_eq!(
        p[0].1,
        PropValue::Vector(vec![
            PropValue::Point(Point { x: 1, y: 2 }),
            PropValue::Point(Point { x: 3, y: 4 })
        ])
    );
    assert_eq!(p[1].1, PropValue::Rect(Rect { origin: Point { x: 5, y: 6 }, size: Size { w: 7, h: 8 } }));
    assert_eq!(p[2].1, PropValue::Size(Size { w: 7, h: 8 }));
    assert_eq!(p[3].1, PropValue::U64(u64::MAX));
    assert_eq!(p[4].1, PropValue::Fixed(0x0001_8000));
}

#[test]
fn unknown_property_type_fails_with_verify() {
    let mut body = dw(4);
    body.extend(dw(0));
    body.extend(dw(1));
    body.extend(dw(0));
    body.extend(dw(1));
    body.extend(s("bad"));
    body.extend(w(0x0014));
    let at = body.len();
    body.push(1);
    assert_eq!(
        UserDataChunk::parse_data(&body),
        Err(ParseError { input: &body[at..], code: ErrorKind::Verify })
    );
}

#[test]
fn each_body_reads_its_own_chunk_type() {
    assert_eq!(OldPalette04Chunk::chunk_type(), 0x0004);
    assert_eq!(OldPalette11Chunk::chunk_type(), 0x0011);
    assert_eq!(LayerChunk::chunk_type(), 0x2004);
    assert_eq!(CelChunk::chunk_type(), 0x2005);
    assert_eq!(CelExtraChunk::chunk_type(), 0x2006);
    assert_eq!(ColorProfileChunk::chunk_type(), 0x2007);
    assert_eq!(ExternalFilesChunk::chunk_type(), 0x2008);
    assert_eq!(MaskChunk::chunk_type(), 0x2016);
    assert_eq!(PathChunk::chunk_type(), 0x2017);
    assert_eq!(TagsChunk::chunk_type(), 0x2018);
    assert_eq!(PaletteChunk::chunk_type(), 0x2019);
    assert_eq!(UserDataChunk::chunk_type(), 0x2020);
    assert_eq!(SliceChunk::chunk_type(), 0x2022);
    assert_eq!(TilesetChunk::chunk_type(), 0x2023);
    assert_eq!(LayerChunk::CHUNK_TYPE, LayerChunk::chunk_type());
    assert_eq!(TilesetChunk::CHUNK_TYPE, TilesetChunk::chunk_type());
}

#[test]
fn path_and_tags_chunks_by_type() {
    let a = AsepriteChunk { chunk_size: 7, chunk_type: 0x2017, raw: &[0x00] };
    let b = AsepriteChunk { chunk_size: 6, chunk_type: 0x2017, raw: &[] };
    assert_eq!(a.parse_as::<PathChunk>(), Err(ParseError { input: &[0x00][..], code: ErrorKind::Eof }));
    assert_eq!(b.parse_as::<PathChunk>(), Ok((&[][..], PathChunk)));
    assert_eq!(b.parse_as::<TagsChunk>(), Err(ParseError { input: &[][..], code: ErrorKind::Verify }));
}

#[test]
fn cel_reserved_bytes_do_not_matter() {
    let mut a = cel_head(3);
    a.extend(w(4));
    a.extend(w(5));
    a.extend(w(32));
    for m in [1u32, 2, 3, 4] {
        a.extend(dw(m));
    }
    a.extend([0u8; 10]);
    a.extend([1u8, 2]);
    let mut b = a.clone();
    for i in 11..16 {
        b[i] = 0xee;
    }
    for i in 38..48 {
        b[i] = 0x77;
    }
    assert_eq!(CelChunk::parse_data(&a), CelChunk::parse_data(&b));
    assert!(CelChunk::parse_data(&a).is_ok());
}
