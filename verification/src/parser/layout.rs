//! Where each field of each record sits: the value of every field as the
//! little-endian number at its offset, what is consumed, and when each optional part
//! is present.
use vstd::prelude::*;

use crate::parser::chunk::userdata::{
    property_map_parser, spec_prop, spec_prop_value, spec_property_map, spec_props, spec_user_data_chunk,
    spec_user_data_maps, spec_vec_elem, spec_vec_elems, SpecPropValue, SpecUserDataChunk,
};
use crate::parser::chunk::cel::{spec_cel_extra_chunk, CelExtraChunk, spec_cel_chunk, spec_cel_data, spec_cel_head, SpecCelChunk, SpecCelData};
use crate::parser::chunk::colorprofile::{spec_color_profile_chunk, SpecColorProfileChunk};
use crate::parser::chunk::tileset::{spec_tileset_chunk, spec_tileset_head};
use crate::parser::chunk::externalfile::{entry_parser, spec_external_file_entry, spec_external_files_chunk};
use crate::parser::chunk::layer::{spec_layer_chunk, spec_layer_words};
use crate::parser::chunk::mask::spec_mask_chunk;
use crate::parser::chunk::tag::{spec_tag, spec_tags_chunk, tag_parser};
use crate::parser::chunk::oldpalette::{
    color_parser, packet_parser, spec_old_palette_chunk, spec_old_palette_color, spec_old_palette_packet,
    OldPaletteColor, SpecOldPalettePacket,
};
use crate::parser::chunk::palette::{palette_entry_parser, spec_palette_chunk, spec_palette_entry};
use crate::parser::chunk::slice::{slice_key_parser, spec_slice_chunk, spec_slice_key, SliceKey};
use crate::parser::chunk::{spec_aseprite_chunk, SpecAsepriteChunk};
use crate::parser::frame::{chunk_parser, spec_frame, spec_frame_header, AsepriteFrameHeader};
use crate::parser::primitives::{spec_string, i16_of, i32_of, i64_of, i8_of, le16, le32, le64, Point, Rect, Size};
use crate::parser::result::{spec_count, ErrorKind, SpecResult};

verus! {

/// Skipping `a` bytes and then `b` bytes skips `a + b` bytes.
pub broadcast proof fn lemma_skip_skip(s: Seq<u8>, a: int, b: int)
    requires
        0 <= a,
        0 <= b,
        a + b <= s.len(),
    ensures
        #[trigger] s.skip(a).skip(b) == s.skip(a + b),
{
    assert(s.skip(a).skip(b) =~= s.skip(a + b));
}

/// Ok with what is left and the value.
pub open spec fn ok<V>(rest: Seq<u8>, v: V) -> SpecResult<V> {
    Ok((rest, v))
}

/// A property of a fixed-size type reads exactly its width: 1 byte for bool, i8, u8;
/// 2 for i16, u16; 4 for i32, u32, fixed, f32; 8 for i64, u64, f64, point, size; 16 for
/// rect and UUID. Its value is the little-endian number in those bytes; with fewer bytes
/// it fails (with `Eof` at the value for the one-number types). Types 0 and above 0x0013
/// fail with `Verify` at the value.
pub proof fn lemma_prop_value_fixed(s: Seq<u8>)
    ensures
        s.len() >= 1 ==> spec_prop_value(s, 0x0001) == ok(s.skip(1), SpecPropValue::Bool(s[0] != 0)),
        s.len() >= 1 ==> spec_prop_value(s, 0x0002) == ok(s.skip(1), SpecPropValue::I8(i8_of(s[0]))),
        s.len() >= 1 ==> spec_prop_value(s, 0x0003) == ok(s.skip(1), SpecPropValue::U8(s[0])),
        s.len() >= 2 ==> spec_prop_value(s, 0x0004) == ok(
            s.skip(2),
            SpecPropValue::I16(i16_of(le16(s) as u16)),
        ),
        s.len() >= 2 ==> spec_prop_value(s, 0x0005) == ok(s.skip(2), SpecPropValue::U16(le16(s) as u16)),
        s.len() >= 4 ==> spec_prop_value(s, 0x0006) == ok(
            s.skip(4),
            SpecPropValue::I32(i32_of(le32(s) as u32)),
        ),
        s.len() >= 4 ==> spec_prop_value(s, 0x0007) == ok(s.skip(4), SpecPropValue::U32(le32(s) as u32)),
        s.len() >= 8 ==> spec_prop_value(s, 0x0008) == ok(
            s.skip(8),
            SpecPropValue::I64(i64_of(le64(s) as u64)),
        ),
        s.len() >= 8 ==> spec_prop_value(s, 0x0009) == ok(s.skip(8), SpecPropValue::U64(le64(s) as u64)),
        s.len() >= 4 ==> spec_prop_value(s, 0x000A) == ok(
            s.skip(4),
            SpecPropValue::Fixed(i32_of(le32(s) as u32)),
        ),
        s.len() >= 4 ==> spec_prop_value(s, 0x000B) == ok(s.skip(4), SpecPropValue::Float(le32(s) as u32)),
        s.len() >= 8 ==> spec_prop_value(s, 0x000C) == ok(
            s.skip(8),
            SpecPropValue::Double(le64(s) as u64),
        ),
        s.len() >= 8 ==> spec_prop_value(s, 0x000E) == ok(
            s.skip(8),
            SpecPropValue::Point(Point { x: i32_of(le32(s) as u32), y: i32_of(le32(s.skip(4)) as u32) }),
        ),
        s.len() >= 8 ==> spec_prop_value(s, 0x000F) == ok(
            s.skip(8),
            SpecPropValue::Size(Size { w: i32_of(le32(s) as u32), h: i32_of(le32(s.skip(4)) as u32) }),
        ),
        s.len() >= 16 ==> spec_prop_value(s, 0x0010) == ok(
            s.skip(16),
            SpecPropValue::Rect(
                Rect {
                    origin: Point { x: i32_of(le32(s) as u32), y: i32_of(le32(s.skip(4)) as u32) },
                    size: Size {
                        w: i32_of(le32(s.skip(8)) as u32),
                        h: i32_of(le32(s.skip(12)) as u32),
                    },
                },
            ),
        ),
        s.len() >= 16 ==> spec_prop_value(s, 0x0013) == ok(s.skip(16), SpecPropValue::Uuid(s.take(16))),
        forall|t: u16|
            #![trigger spec_prop_value(s, t)]
            ((1 <= t <= 0x000C || t == 0x0013) && s.len() < prop_width(t)) ==> spec_prop_value(s, t)
                == Err::<(Seq<u8>, SpecPropValue), (Seq<u8>, ErrorKind)>((s, ErrorKind::Eof)),
        forall|t: u16|
            #![trigger spec_prop_value(s, t)]
            (0x000E <= t <= 0x0010 && s.len() < prop_width(t)) ==> spec_prop_value(s, t) is Err,
        forall|t: u16|
            #![trigger spec_prop_value(s, t)]
            (t == 0 || t > 0x0013) ==> spec_prop_value(s, t) == Err::<
                (Seq<u8>, SpecPropValue),
                (Seq<u8>, ErrorKind),
            >((s, ErrorKind::Verify)),
{
    if s.len() >= 8 {
        assert(s.skip(4).skip(4) =~= s.skip(8));
    }
    if s.len() >= 16 {
        assert(s.skip(4).skip(4).skip(4).skip(4) =~= s.skip(16));
        assert(s.skip(4).skip(4) =~= s.skip(8));
        assert(s.skip(4).skip(4).skip(4) =~= s.skip(12));
        assert(s.skip(16) =~= s.skip(16));
        assert(s.take(16) =~= s.take(16));
    }
}

/// The width of a property value of a fixed-size type.
pub open spec fn prop_width(t: u16) -> nat {
    if t <= 0x0003 {
        1
    } else if t <= 0x0005 {
        2
    } else if t <= 0x0007 || t == 0x000A || t == 0x000B {
        4
    } else if t == 0x0010 || t == 0x0013 {
        16
    } else {
        8
    }
}

/// A frame header is the first 16 bytes: bytes in frame (DWORD at 0), the magic
/// number 0xF1FA (WORD at 4), the old chunk count (WORD at 6), the duration (WORD at 8),
/// two reserved bytes, the new chunk count (DWORD at 12). It is read exactly when there
/// are 16 bytes and the magic number is right; a wrong magic number fails with `Verify`
/// at the magic number.
pub proof fn lemma_frame_header_layout(s: Seq<u8>)
    ensures
        spec_frame_header(s) is Ok <==> (s.len() >= 16 && le16(s.skip(4)) == 0xF1FA),
        spec_frame_header(s) is Ok ==> spec_frame_header(s) == ok(
            s.skip(16),
            AsepriteFrameHeader {
                bytes_in_frame: le32(s) as u32,
                magic_number: 0xF1FA,
                number_of_chunks_old: le16(s.skip(6)) as u16,
                frame_duration: le16(s.skip(8)) as u16,
                number_of_chunks_new: le32(s.skip(12)) as u32,
            },
        ),
        s.len() >= 6 && le16(s.skip(4)) != 0xF1FA ==> spec_frame_header(s) == Err::<
            (Seq<u8>, AsepriteFrameHeader),
            (Seq<u8>, ErrorKind),
        >((s.skip(4), ErrorKind::Verify)),
{
    if s.len() >= 8 {
        assert(s.skip(4).skip(2) =~= s.skip(6));
    }
    if s.len() >= 10 {
        assert(s.skip(4).skip(2).skip(2) =~= s.skip(8));
    }
    if s.len() >= 12 {
        assert(s.skip(4).skip(2).skip(2).skip(2).skip(2) =~= s.skip(12));
    }
    if s.len() >= 16 {
        assert(s.skip(4).skip(2).skip(2).skip(2).skip(2).skip(4) =~= s.skip(16));
    }
}

/// A chunk's size is the DWORD at 0 and its type the WORD at 4; its body is the
/// `size - 6` bytes from offset 6.
pub proof fn lemma_chunk_layout(s: Seq<u8>)
    ensures
        spec_aseprite_chunk(s) is Ok <==> (s.len() >= 6 && le32(s) >= 6 && le32(s) <= s.len()),
        spec_aseprite_chunk(s) is Ok ==> spec_aseprite_chunk(s) == ok(
            s.skip(le32(s)),
            SpecAsepriteChunk {
                chunk_size: le32(s) as u32,
                chunk_type: le16(s.skip(4)) as u16,
                raw: s.subrange(6, le32(s)),
            },
        ),
{
    if s.len() >= 6 {
        assert(s.skip(4).skip(2) =~= s.skip(6));
        if 6 <= le32(s) <= s.len() {
            assert(s.skip(6).skip(le32(s) - 6) =~= s.skip(le32(s)));
            assert(s.skip(6).take(le32(s) - 6) =~= s.subrange(6, le32(s)));
        }
    }
}

/// The cel type: the WORD at 7.
pub open spec fn cel_type_at(s: Seq<u8>) -> int {
    le16(s.skip(7))
}

/// The cel whose head fields are the numbers at their offsets in `s` (layer index at 0,
/// x at 2, y at 4, opacity at 6, z-index at 9), with the given data.
pub open spec fn cel_with(s: Seq<u8>, data: SpecCelData) -> SpecCelChunk {
    SpecCelChunk {
        layer_index: le16(s) as u16,
        x: i16_of(le16(s.skip(2)) as u16),
        y: i16_of(le16(s.skip(4)) as u16),
        opacity: s[6],
        z_index: i16_of(le16(s.skip(9)) as u16),
        data,
    }
}

/// The fixed head of a cel is its first 16 bytes.
proof fn lemma_cel_head_layout(s: Seq<u8>)
    ensures
        s.len() < 16 ==> spec_cel_head(s) is Err,
        s.len() >= 16 ==> spec_cel_head(s) == ok(
            s.skip(16),
            (
                le16(s) as u16,
                i16_of(le16(s.skip(2)) as u16),
                i16_of(le16(s.skip(4)) as u16),
                s[6],
                le16(s.skip(7)) as u16,
                i16_of(le16(s.skip(9)) as u16),
            ),
        ),
{
    if s.len() >= 16 {
        assert(s.skip(2).skip(2) =~= s.skip(4));
        assert(s.skip(2).skip(2).skip(2) =~= s.skip(6));
        assert(s.skip(2).skip(2).skip(2).skip(1) =~= s.skip(7));
        assert(s.skip(2).skip(2).skip(2).skip(1).skip(2) =~= s.skip(9));
        assert(s.skip(2).skip(2).skip(2).skip(1).skip(2).skip(2) =~= s.skip(11));
        assert(s.skip(2).skip(2).skip(2).skip(1).skip(2).skip(2).skip(5) =~= s.skip(16));
    }
}

/// Cel data: width and height are the WORDs at 0 and 2 of the data; image bytes follow
/// them and take all the rest; a linked cel is one WORD; a compressed tilemap has bits
/// per tile at 4, the tile id, x flip, y flip and diagonal flip masks at 6, 10, 14 and
/// 18, ten reserved bytes, and its tiles from 32 on.
proof fn lemma_cel_data_layout(d: Seq<u8>)
    ensures
        d.len() >= 4 ==> spec_cel_data(d, 0) == ok(
            Seq::<u8>::empty(),
            SpecCelData::RawImage { w: le16(d) as u16, h: le16(d.skip(2)) as u16, pixels: d.skip(4) },
        ),
        d.len() >= 2 ==> spec_cel_data(d, 1) == ok(d.skip(2), SpecCelData::Linked { frame: le16(d) as u16 }),
        d.len() >= 4 ==> spec_cel_data(d, 2) == ok(
            Seq::<u8>::empty(),
            SpecCelData::CompressedImage {
                w: le16(d) as u16,
                h: le16(d.skip(2)) as u16,
                zlib: d.skip(4),
            },
        ),
        d.len() >= 32 ==> spec_cel_data(d, 3) == ok(
            Seq::<u8>::empty(),
            SpecCelData::CompressedTilemap {
                w: le16(d) as u16,
                h: le16(d.skip(2)) as u16,
                bits_per_tile: le16(d.skip(4)) as u16,
                tile_id_mask: le32(d.skip(6)) as u32,
                x_flip_mask: le32(d.skip(10)) as u32,
                y_flip_mask: le32(d.skip(14)) as u32,
                diag_flip_mask: le32(d.skip(18)) as u32,
                zlib_tiles: d.skip(32),
            },
        ),
        d.len() < 4 ==> spec_cel_data(d, 0) is Err && spec_cel_data(d, 2) is Err,
        d.len() < 2 ==> spec_cel_data(d, 1) is Err,
        d.len() < 32 ==> spec_cel_data(d, 3) is Err,
        forall|t: u16|
            #![trigger spec_cel_data(d, t)]
            t > 3 ==> spec_cel_data(d, t) == Err::<(Seq<u8>, SpecCelData), (Seq<u8>, ErrorKind)>(
                (d, ErrorKind::Verify),
            ),
{
    if d.len() >= 4 {
        assert(d.skip(2).skip(2) =~= d.skip(4));
    }
    if d.len() >= 32 {
        assert(d.skip(2).skip(2).skip(2) =~= d.skip(6));
        assert(d.skip(2).skip(2).skip(2).skip(4) =~= d.skip(10));
        assert(d.skip(2).skip(2).skip(2).skip(4).skip(4) =~= d.skip(14));
        assert(d.skip(2).skip(2).skip(2).skip(4).skip(4).skip(4) =~= d.skip(18));
        assert(d.skip(2).skip(2).skip(2).skip(4).skip(4).skip(4).skip(4) =~= d.skip(22));
        assert(d.skip(2).skip(2).skip(2).skip(4).skip(4).skip(4).skip(4).skip(10) =~= d.skip(32));
    }
}

/// A cel: its head fields are the numbers at their offsets; its data starts at 16 and
/// is read by the cel type (the WORD at 7): raw image (0), linked cel (1), compressed
/// image (2), compressed tilemap (3). Any other type fails with `Verify` at offset 16.
pub proof fn lemma_cel_layout(s: Seq<u8>)
    ensures
        spec_cel_chunk(s) is Ok <==> (s.len() >= 16 && (cel_type_at(s) == 0 && s.len() >= 20
            || cel_type_at(s) == 1 && s.len() >= 18 || cel_type_at(s) == 2 && s.len() >= 20
            || cel_type_at(s) == 3 && s.len() >= 48)),
        s.len() >= 20 && cel_type_at(s) == 0 ==> spec_cel_chunk(s) == ok(
            Seq::<u8>::empty(),
            cel_with(
                s,
                SpecCelData::RawImage {
                    w: le16(s.skip(16)) as u16,
                    h: le16(s.skip(18)) as u16,
                    pixels: s.skip(20),
                },
            ),
        ),
        s.len() >= 18 && cel_type_at(s) == 1 ==> spec_cel_chunk(s) == ok(
            s.skip(18),
            cel_with(s, SpecCelData::Linked { frame: le16(s.skip(16)) as u16 }),
        ),
        s.len() >= 20 && cel_type_at(s) == 2 ==> spec_cel_chunk(s) == ok(
            Seq::<u8>::empty(),
            cel_with(
                s,
                SpecCelData::CompressedImage {
                    w: le16(s.skip(16)) as u16,
                    h: le16(s.skip(18)) as u16,
                    zlib: s.skip(20),
                },
            ),
        ),
        s.len() >= 48 && cel_type_at(s) == 3 ==> spec_cel_chunk(s) == ok(
            Seq::<u8>::empty(),
            cel_with(
                s,
                SpecCelData::CompressedTilemap {
                    w: le16(s.skip(16)) as u16,
                    h: le16(s.skip(18)) as u16,
                    bits_per_tile: le16(s.skip(20)) as u16,
                    tile_id_mask: le32(s.skip(22)) as u32,
                    x_flip_mask: le32(s.skip(26)) as u32,
                    y_flip_mask: le32(s.skip(30)) as u32,
                    diag_flip_mask: le32(s.skip(34)) as u32,
                    zlib_tiles: s.skip(48),
                },
            ),
        ),
        s.len() >= 16 && cel_type_at(s) > 3 ==> spec_cel_chunk(s) == Err::<
            (Seq<u8>, SpecCelChunk),
            (Seq<u8>, ErrorKind),
        >((s.skip(16), ErrorKind::Verify)),
{
    lemma_cel_head_layout(s);
    if s.len() >= 16 {
        let d = s.skip(16);
        lemma_cel_data_layout(d);
        if s.len() >= 18 {
            assert(d.skip(2) =~= s.skip(18));
        }
        if s.len() >= 20 {
            assert(d.skip(4) =~= s.skip(20));
        }
        if s.len() >= 48 {
            assert(d.skip(6) =~= s.skip(22));
            assert(d.skip(10) =~= s.skip(26));
            assert(d.skip(14) =~= s.skip(30));
            assert(d.skip(18) =~= s.skip(34));
            assert(d.skip(32) =~= s.skip(48));
        }
    }
}

/// The fixed head of a tileset is its first 32 bytes: id (DWORD at 0), flags (DWORD at
/// 4), number of tiles (DWORD at 8), tile width and height (WORDs at 12 and 14), base
/// index (SHORT at 16), and fourteen reserved bytes.
proof fn lemma_tileset_head_layout(s: Seq<u8>)
    ensures
        s.len() < 32 ==> spec_tileset_head(s) is Err,
        s.len() >= 32 ==> spec_tileset_head(s) == ok(
            s.skip(32),
            (
                le32(s) as u32,
                le32(s.skip(4)) as u32,
                le32(s.skip(8)) as u32,
                le16(s.skip(12)) as u16,
                le16(s.skip(14)) as u16,
                i16_of(le16(s.skip(16)) as u16),
            ),
        ),
{
    if s.len() >= 32 {
        assert(s.skip(4).skip(4) =~= s.skip(8));
        assert(s.skip(4).skip(4).skip(4) =~= s.skip(12));
        assert(s.skip(4).skip(4).skip(4).skip(2) =~= s.skip(14));
        assert(s.skip(4).skip(4).skip(4).skip(2).skip(2) =~= s.skip(16));
        assert(s.skip(4).skip(4).skip(4).skip(2).skip(2).skip(2) =~= s.skip(18));
        assert(s.skip(4).skip(4).skip(4).skip(2).skip(2).skip(2).skip(14) =~= s.skip(32));
    }
}

/// A tileset: its head fields are the numbers at their offsets, its name is the string
/// at 32; after the name, the external file reference (two DWORDs) is present exactly
/// when flag bit 1 is set, and after it the compressed image (a DWORD length, then that
/// many bytes) exactly when flag bit 2 is set, whatever the other flag bits.
pub proof fn lemma_tileset_layout(s: Seq<u8>)
    ensures
        spec_tileset_chunk(s) matches Ok((rest, t)) ==> {
            &&& t.id == le32(s)
            &&& t.flags == le32(s.skip(4))
            &&& t.num_tiles == le32(s.skip(8))
            &&& t.tile_width == le16(s.skip(12))
            &&& t.tile_height == le16(s.skip(14))
            &&& t.base_index == i16_of(le16(s.skip(16)) as u16)
            &&& spec_string(s.skip(32)) matches Ok((r, name)) && name == t.name && {
                &&& (t.external is Some <==> t.flags & 1 != 0)
                &&& (t.compressed_image is Some <==> t.flags & 2 != 0)
                &&& (t.external matches Some((file_id, ts_id)) ==> file_id == le32(r) && ts_id
                    == le32(r.skip(4)))
                &&& {
                    let r2 = if t.flags & 1 != 0 {
                        r.skip(8)
                    } else {
                        r
                    };
                    &&& (t.compressed_image matches Some(d) ==> d == r2.skip(4).take(le32(r2))
                        && rest == r2.skip(4 + le32(r2)))
                    &&& (t.compressed_image is None ==> rest == r2)
                }
            }
        },
{
    lemma_tileset_head_layout(s);
    if let Ok((rest, t)) = spec_tileset_chunk(s) {
        if let Ok((r, _)) = spec_string(s.skip(32)) {
            if t.flags & 1 != 0 {
                assert(r.skip(4).skip(4) =~= r.skip(8));
            }
            let r2 = if t.flags & 1 != 0 {
                r.skip(8)
            } else {
                r
            };
            if t.flags & 2 != 0 {
                assert(r2.skip(4).skip(le32(r2)) =~= r2.skip(4 + le32(r2)));
            }
        }
    }
}

/// A color profile is kind (WORD at 0), flags (WORD at 2), gamma (LONG at 4) and eight
/// reserved bytes; it carries an ICC profile (a DWORD length at 16, then that many bytes)
/// exactly when its kind is 2, and otherwise reads exactly its 16 bytes.
pub proof fn lemma_color_profile_layout(s: Seq<u8>)
    ensures
        s.len() >= 16 && le16(s) != 2 ==> spec_color_profile_chunk(s) == ok(
            s.skip(16),
            SpecColorProfileChunk {
                kind: le16(s) as u16,
                flags: le16(s.skip(2)) as u16,
                gamma: i32_of(le32(s.skip(4)) as u32),
                icc: None,
            },
        ),
        s.len() >= 20 && le16(s) == 2 && 20 + le32(s.skip(16)) <= s.len()
            ==> spec_color_profile_chunk(s) == ok(
            s.skip(20 + le32(s.skip(16))),
            SpecColorProfileChunk {
                kind: 2,
                flags: le16(s.skip(2)) as u16,
                gamma: i32_of(le32(s.skip(4)) as u32),
                icc: Some(s.subrange(20, 20 + le32(s.skip(16)))),
            },
        ),
        spec_color_profile_chunk(s) matches Ok((_, c)) ==> (c.icc is Some <==> c.kind == 2),
        spec_color_profile_chunk(s) is Ok <==> (s.len() >= 16 && (le16(s) != 2 || (s.len() >= 20
            && 20 + le32(s.skip(16)) <= s.len()))),
{
    if s.len() >= 16 {
        assert(s.skip(2).skip(2) =~= s.skip(4));
        assert(s.skip(2).skip(2).skip(4) =~= s.skip(8));
        assert(s.skip(2).skip(2).skip(4).skip(8) =~= s.skip(16));
    }
    if s.len() >= 20 {
        assert(s.skip(16).skip(4) =~= s.skip(20));
        if 20 + le32(s.skip(16)) <= s.len() {
            assert(s.skip(20).skip(le32(s.skip(16))) =~= s.skip(20 + le32(s.skip(16))));
            assert(s.skip(20).take(le32(s.skip(16))) =~= s.subrange(20, 20 + le32(s.skip(16))));
        }
    }
}

/// A cel extra chunk is flags (DWORD at 0), precise x and y, width and height (LONGs at
/// 4, 8, 12, 16) and sixteen reserved bytes: 36 bytes in all.
pub proof fn lemma_cel_extra_layout(s: Seq<u8>)
    ensures
        s.len() >= 36 ==> spec_cel_extra_chunk(s) == ok(
            s.skip(36),
            CelExtraChunk {
                flags: le32(s) as u32,
                precise_x: i32_of(le32(s.skip(4)) as u32),
                precise_y: i32_of(le32(s.skip(8)) as u32),
                width: i32_of(le32(s.skip(12)) as u32),
                height: i32_of(le32(s.skip(16)) as u32),
            },
        ),
        s.len() < 36 ==> spec_cel_extra_chunk(s) is Err,
{
    broadcast use lemma_skip_skip;

}

/// A layer: flags, type, child level, default width and height, blend mode (WORDs at
/// 0, 2, 4, 6, 8, 10), opacity (byte at 12), three reserved bytes, the name (string at
/// 16); then the tileset index (a DWORD) exactly when the type is 2, and then a 16-byte
/// UUID exactly when any input is left.
pub proof fn lemma_layer_layout(s: Seq<u8>)
    ensures
        spec_layer_chunk(s) matches Ok((rest, l)) ==> {
            &&& l.flags == le16(s)
            &&& l.layer_type == le16(s.skip(2))
            &&& l.child_level == le16(s.skip(4))
            &&& l.default_width == le16(s.skip(6))
            &&& l.default_height == le16(s.skip(8))
            &&& l.blend_mode == le16(s.skip(10))
            &&& l.opacity == s[12]
            &&& spec_string(s.skip(16)) matches Ok((r, name)) && name == l.name && {
                let r2 = if l.layer_type == 2 {
                    r.skip(4)
                } else {
                    r
                };
                &&& (l.tileset_index is Some <==> l.layer_type == 2)
                &&& (l.tileset_index matches Some(i) ==> i == le32(r))
                &&& (l.uuid is Some <==> r2.len() > 0)
                &&& (l.uuid matches Some(u) ==> u == r2.take(16) && rest == r2.skip(16))
                &&& (l.uuid is None ==> rest == r2)
            }
        },
{
    lemma_layer_words_layout(s);
    if s.len() >= 16 {
        assert(s.skip(12).skip(1).skip(3) =~= s.skip(16));
        assert(s.skip(12)[0] == s[12]);
    }
}

/// The six WORDs that open a layer are its first 12 bytes.
proof fn lemma_layer_words_layout(s: Seq<u8>)
    ensures
        s.len() >= 12 ==> spec_layer_words(s) == ok(
            s.skip(12),
            (
                le16(s) as u16,
                le16(s.skip(2)) as u16,
                le16(s.skip(4)) as u16,
                le16(s.skip(6)) as u16,
                le16(s.skip(8)) as u16,
                le16(s.skip(10)) as u16,
            ),
        ),
        s.len() < 12 ==> spec_layer_words(s) is Err,
{
    broadcast use lemma_skip_skip;

}

/// A mask: x, y (SHORTs at 0, 2), width, height (WORDs at 4, 6), eight reserved bytes,
/// the name (string at 16), then a bitmap of `height` rows of `ceil(width / 8)` bytes.
pub proof fn lemma_mask_layout(s: Seq<u8>)
    ensures
        spec_mask_chunk(s) matches Ok((rest, m)) ==> {
            &&& m.x == i16_of(le16(s) as u16)
            &&& m.y == i16_of(le16(s.skip(2)) as u16)
            &&& m.width == le16(s.skip(4))
            &&& m.height == le16(s.skip(6))
            &&& spec_string(s.skip(16)) matches Ok((r, name)) && name == m.name && {
                let n = m.height * ((m.width + 7) / 8);
                &&& m.bitmap == r.take(n)
                &&& rest == r.skip(n)
            }
        },
{
    broadcast use lemma_skip_skip;

    if s.len() >= 16 {
        assert(s.skip(2).skip(2).skip(2).skip(2).skip(8) == s.skip(16));
    }
}

/// An external file entry: id (DWORD at 0), kind (byte at 4), seven reserved bytes, the
/// file name (string at 12).
pub proof fn lemma_external_file_entry_layout(s: Seq<u8>)
    ensures
        spec_external_file_entry(s) matches Ok((rest, e)) ==> {
            &&& e.id == le32(s)
            &&& e.kind == s[4]
            &&& spec_string(s.skip(12)) == ok(rest, e.name)
        },
        s.len() >= 12 ==> (spec_external_file_entry(s) is Ok <==> spec_string(s.skip(12)) is Ok),
{
    broadcast use lemma_skip_skip;

    if s.len() >= 12 {
        assert(s.skip(4).skip(1).skip(7) == s.skip(12));
    }
}

/// An external files chunk: the number of entries (DWORD at 0), eight reserved bytes,
/// then that many entries from offset 12.
pub proof fn lemma_external_files_layout(s: Seq<u8>)
    ensures
        spec_external_files_chunk(s) matches Ok((rest, c)) ==> spec_count(
            entry_parser(),
            s.skip(12),
            le32(s) as nat,
        ) == ok(rest, c.entries),
        s.len() >= 12 ==> (spec_external_files_chunk(s) is Ok <==> spec_count(
            entry_parser(),
            s.skip(12),
            le32(s) as nat,
        ) is Ok),
{
    broadcast use lemma_skip_skip;

    if s.len() >= 12 {
        assert(s.skip(4).skip(8) == s.skip(12));
    }
}

/// A tag: from and to frame (WORDs at 0, 2), direction (byte at 4), repeat count (WORD
/// at 5), six reserved bytes, the color (bytes 13 to 16), one reserved byte, the name
/// (string at 17).
pub proof fn lemma_tag_layout(s: Seq<u8>)
    ensures
        spec_tag(s) matches Ok((rest, t)) ==> {
            &&& t.from_frame == le16(s)
            &&& t.to_frame == le16(s.skip(2))
            &&& t.direction == s[4]
            &&& t.repeat == le16(s.skip(5))
            &&& t.color == s.subrange(13, 16)
            &&& spec_string(s.skip(17)) == ok(rest, t.name)
        },
        s.len() >= 17 ==> (spec_tag(s) is Ok <==> spec_string(s.skip(17)) is Ok),
{
    broadcast use lemma_skip_skip;

    if s.len() >= 17 {
        assert(s.skip(2).skip(2).skip(1).skip(2).skip(6) == s.skip(13));
        assert(s.skip(13).skip(3).skip(1) == s.skip(17));
        assert(s.skip(13).take(3) =~= s.subrange(13, 16));
    }
}

/// A tags chunk: the number of tags (WORD at 0), eight reserved bytes, then that many
/// tags from offset 10.
pub proof fn lemma_tags_layout(s: Seq<u8>)
    ensures
        spec_tags_chunk(s) matches Ok((rest, c)) ==> spec_count(
            tag_parser(),
            s.skip(10),
            le16(s) as nat,
        ) == ok(rest, c.tags),
        s.len() >= 10 ==> (spec_tags_chunk(s) is Ok <==> spec_count(
            tag_parser(),
            s.skip(10),
            le16(s) as nat,
        ) is Ok),
{
    broadcast use lemma_skip_skip;

    if s.len() >= 10 {
        assert(s.skip(2).skip(8) == s.skip(10));
    }
}

/// A palette entry: flags (WORD at 0), red, green, blue, alpha (bytes 2 to 5), then a
/// name (string at 6) exactly when flag bit 1 is set.
pub proof fn lemma_palette_entry_layout(s: Seq<u8>)
    ensures
        spec_palette_entry(s) matches Ok((rest, e)) ==> {
            &&& e.flags == le16(s)
            &&& e.r == s[2]
            &&& e.g == s[3]
            &&& e.b == s[4]
            &&& e.a == s[5]
            &&& (e.name is Some <==> e.flags & 1 != 0)
            &&& (e.name is None ==> rest == s.skip(6))
            &&& (e.name matches Some(n) ==> spec_string(s.skip(6)) == ok(rest, n))
        },
        s.len() >= 6 && (le16(s) as u16) & 1 == 0 ==> spec_palette_entry(s) is Ok,
        s.len() < 6 ==> spec_palette_entry(s) is Err,
{
    broadcast use lemma_skip_skip;

    if s.len() >= 6 {
        assert(s.skip(2).skip(1).skip(1).skip(1).skip(1) == s.skip(6));
    }
}

/// A palette chunk: new size, first index, last index (DWORDs at 0, 4, 8), eight
/// reserved bytes, then from offset 20 one entry per index from the first to the last
/// (one entry when the last is below the first).
pub proof fn lemma_palette_layout(s: Seq<u8>)
    ensures
        spec_palette_chunk(s) matches Ok((rest, p)) ==> {
            &&& p.new_size == le32(s)
            &&& p.first_index == le32(s.skip(4))
            &&& p.last_index == le32(s.skip(8))
            &&& spec_count(
                palette_entry_parser(),
                s.skip(20),
                if p.last_index >= p.first_index {
                    (p.last_index - p.first_index + 1) as nat
                } else {
                    1
                },
            ) == ok(rest, p.entries)
        },
        s.len() < 20 ==> spec_palette_chunk(s) is Err,
{
    broadcast use lemma_skip_skip;

    if s.len() >= 20 {
        assert(s.skip(4).skip(4).skip(4).skip(8) == s.skip(20));
    }
}

/// The colors of an old palette packet: three bytes each (red, green, blue), one after
/// another.
pub open spec fn rgb_triples(s: Seq<u8>, n: nat) -> Seq<OldPaletteColor> {
    Seq::new(n, |i: int| OldPaletteColor { r: s[3 * i], g: s[3 * i + 1], b: s[3 * i + 2] })
}

/// `n` old palette colors are the `3 n` bytes at the start of the input.
pub proof fn lemma_old_palette_colors_layout(s: Seq<u8>, n: nat)
    ensures
        s.len() >= 3 * n ==> spec_count(color_parser(), s, n) == ok(s.skip((3 * n) as int), rgb_triples(s, n)),
        s.len() < 3 * n ==> spec_count(color_parser(), s, n) is Err,
    decreases n,
{
    broadcast use lemma_skip_skip;

    if n > 0 {
        lemma_old_palette_colors_layout(s, (n - 1) as nat);
        if s.len() >= 3 * n {
            let r = s.skip(3 * (n - 1));
            assert(color_parser()(r) == spec_old_palette_color(r));
            assert(r.skip(1).skip(1).skip(1) == s.skip((3 * n) as int));
            assert(rgb_triples(s, (n - 1) as nat).push(
                OldPaletteColor { r: r[0], g: r[1], b: r[2] },
            ) =~= rgb_triples(s, n));
        } else if s.len() >= 3 * (n - 1) {
            let r = s.skip(3 * (n - 1));
            assert(color_parser()(r) == spec_old_palette_color(r));
        }
    } else {
        assert(s.skip(0) =~= s);
        assert(rgb_triples(s, 0) =~= Seq::<OldPaletteColor>::empty());
    }
}

/// An old palette packet: entries to skip (byte at 0), the stored count (byte at 1), then
/// that many colors (256 for a count of 0), three bytes each, from offset 2.
pub proof fn lemma_old_palette_packet_layout(s: Seq<u8>)
    ensures
        s.len() >= 2 ==> {
            let n: nat = if s[1] == 0 {
                256
            } else {
                s[1] as nat
            };
            &&& s.len() >= 2 + 3 * n ==> spec_old_palette_packet(s) == ok(
                s.skip((2 + 3 * n) as int),
                SpecOldPalettePacket { skip: s[0], count: s[1], colors: rgb_triples(s.skip(2), n) },
            )
            &&& s.len() < 2 + 3 * n ==> spec_old_palette_packet(s) is Err
        },
        s.len() < 2 ==> spec_old_palette_packet(s) is Err,
{
    broadcast use lemma_skip_skip;

    if s.len() >= 2 {
        let n: nat = if s[1] == 0 {
            256
        } else {
            s[1] as nat
        };
        assert(s.skip(1).skip(1) == s.skip(2));
        lemma_old_palette_colors_layout(s.skip(2), n);
    }
}

/// An old palette chunk: the number of packets (WORD at 0), then that many packets from
/// offset 2.
pub proof fn lemma_old_palette_layout(s: Seq<u8>)
    ensures
        spec_old_palette_chunk(s) matches Ok((rest, c)) ==> spec_count(
            packet_parser(),
            s.skip(2),
            le16(s) as nat,
        ) == ok(rest, c.packets),
        s.len() >= 2 ==> (spec_old_palette_chunk(s) is Ok <==> spec_count(
            packet_parser(),
            s.skip(2),
            le16(s) as nat,
        ) is Ok),
{
}

/// A slice key: frame (DWORD at 0), x, y (LONGs at 4, 8), width, height (DWORDs at 12,
/// 16); then the 9-patch center (x, y as LONGs, width and height as DWORDs) when
/// `has_ninepatch`, then the pivot (two LONGs) when `has_pivot`.
pub proof fn lemma_slice_key_layout(s: Seq<u8>, has_ninepatch: bool, has_pivot: bool)
    ensures
        ({
            let np: int = if has_ninepatch {
                16
            } else {
                0
            };
            let pv: int = if has_pivot {
                8
            } else {
                0
            };
            &&& s.len() >= 20 + np + pv ==> spec_slice_key(s, has_ninepatch, has_pivot) == ok(
                s.skip(20 + np + pv),
                SliceKey {
                    frame: le32(s) as u32,
                    x: i32_of(le32(s.skip(4)) as u32),
                    y: i32_of(le32(s.skip(8)) as u32),
                    width: le32(s.skip(12)) as u32,
                    height: le32(s.skip(16)) as u32,
                    ninepatch: if has_ninepatch {
                        Some(
                            Rect {
                                origin: Point {
                                    x: i32_of(le32(s.skip(20)) as u32),
                                    y: i32_of(le32(s.skip(24)) as u32),
                                },
                                size: Size {
                                    w: i32_of(le32(s.skip(28)) as u32),
                                    h: i32_of(le32(s.skip(32)) as u32),
                                },
                            },
                        )
                    } else {
                        None
                    },
                    pivot: if has_pivot {
                        Some(
                            Point {
                                x: i32_of(le32(s.skip(20 + np)) as u32),
                                y: i32_of(le32(s.skip(24 + np)) as u32),
                            },
                        )
                    } else {
                        None
                    },
                },
            )
            &&& s.len() < 20 + np + pv ==> spec_slice_key(s, has_ninepatch, has_pivot) is Err
        }),
{
    broadcast use lemma_skip_skip;

}

/// A slice chunk: the number of keys (DWORD at 0), flags (DWORD at 4), a reserved DWORD,
/// the name (string at 12), then that many keys, with a 9-patch center when flag bit 1
/// is set and a pivot when flag bit 2 is set.
pub proof fn lemma_slice_layout(s: Seq<u8>)
    ensures
        spec_slice_chunk(s) matches Ok((rest, c)) ==> {
            &&& c.flags == le32(s.skip(4))
            &&& spec_string(s.skip(12)) matches Ok((r, name)) && name == c.name && spec_count(
                slice_key_parser(c.flags & 1 != 0, c.flags & 2 != 0),
                r,
                le32(s) as nat,
            ) == ok(rest, c.keys)
        },
{
    broadcast use lemma_skip_skip;

    if s.len() >= 12 {
        assert(s.skip(4).skip(4).skip(4) == s.skip(12));
    }
}

/// A string property is a string (WORD length, then that many UTF-8 bytes); a vector
/// property is its element count (DWORD at 0), its element type (WORD at 4) and that
/// many elements from offset 6; a map property is its property count (DWORD at 0) and
/// that many named properties from offset 4.
pub proof fn lemma_prop_value_nested(s: Seq<u8>)
    ensures
        spec_prop_value(s, 0x000D) == (match spec_string(s) {
            Ok((r, v)) => ok(r, SpecPropValue::String(v)),
            Err(e) => Err(e),
        }),
        s.len() >= 6 ==> spec_prop_value(s, 0x0011) == (match spec_vec_elems(
            s.skip(6),
            le32(s) as nat,
            le16(s.skip(4)) as u16,
        ) {
            Ok((r, vs)) => ok(r, SpecPropValue::Vector(vs)),
            Err(e) => Err(e),
        }),
        s.len() < 6 ==> spec_prop_value(s, 0x0011) is Err,
        s.len() >= 4 ==> spec_prop_value(s, 0x0012) == (match spec_props(s.skip(4), le32(s) as nat) {
            Ok((r, ps)) => ok(r, SpecPropValue::Properties(ps)),
            Err(e) => Err(e),
        }),
        s.len() < 4 ==> spec_prop_value(s, 0x0012) is Err,
{
    broadcast use lemma_skip_skip;

    if s.len() >= 6 {
        assert(s.skip(4).skip(2) == s.skip(6));
    }
}

/// An element of a vector whose element type is 0 is its own type (WORD at 0) and a
/// value of that type from offset 2; with any other element type it is a value of that
/// type.
pub proof fn lemma_vec_elem_layout(s: Seq<u8>, et: u16)
    ensures
        et == 0 && s.len() >= 2 ==> spec_vec_elem(s, et) == spec_prop_value(s.skip(2), le16(s) as u16),
        et == 0 && s.len() < 2 ==> spec_vec_elem(s, et) is Err,
        et != 0 ==> spec_vec_elem(s, et) == spec_prop_value(s, et),
{
}

/// `n` vector elements, or `n` named properties, come out as exactly `n` values, the
/// first read from the start of the input and each next one from where the previous
/// one ended.
pub proof fn lemma_vec_elems_layout(s: Seq<u8>, n: nat, et: u16)
    ensures
        spec_vec_elems(s, 0, et) == ok(s, Seq::<SpecPropValue>::empty()),
        spec_vec_elems(s, n, et) matches Ok((r, vs)) ==> vs.len() == n,
        spec_vec_elems(s, n + 1, et) == (match spec_vec_elems(s, n, et) {
            Ok((r, vs)) => match spec_vec_elem(r, et) {
                Ok((r2, v)) => ok(r2, vs.push(v)),
                Err(e) => Err(e),
            },
            Err(e) => Err(e),
        }),
        spec_props(s, 0) == ok(s, Seq::<(Seq<char>, SpecPropValue)>::empty()),
        spec_props(s, n) matches Ok((r, ps)) ==> ps.len() == n,
        spec_props(s, n + 1) == (match spec_props(s, n) {
            Ok((r, ps)) => match spec_prop(r) {
                Ok((r2, p)) => ok(r2, ps.push(p)),
                Err(e) => Err(e),
            },
            Err(e) => Err(e),
        }),
{
    crate::parser::laws::lemma_vec_elems_within(s, n, et);
    crate::parser::laws::lemma_props_within(s, n);
    crate::parser::laws::lemma_prop_counts(s, n, et);
}

/// A named property: its name (a string at 0), its type (the WORD after the name), then
/// a value of that type.
pub proof fn lemma_prop_layout(s: Seq<u8>)
    ensures
        spec_prop(s) == (match spec_string(s) {
            Ok((r, name)) => if r.len() < 2 {
                Err((r, ErrorKind::Eof))
            } else {
                match spec_prop_value(r.skip(2), le16(r) as u16) {
                    Ok((r2, v)) => ok(r2, (name, v)),
                    Err(e) => Err(e),
                }
            },
            Err(e) => Err(e),
        }),
{
}

/// A properties map: its key (DWORD at 0), its property count (DWORD at 4), then that
/// many named properties from offset 8.
pub proof fn lemma_property_map_layout(s: Seq<u8>)
    ensures
        s.len() >= 8 ==> spec_property_map(s) == (match spec_props(s.skip(8), le32(s.skip(4)) as nat) {
            Ok((r, ps)) => ok(r, crate::parser::chunk::userdata::SpecPropertiesMap { key: le32(s) as u32, props: ps }),
            Err(e) => Err(e),
        }),
        s.len() < 8 ==> spec_property_map(s) is Err,
{
    broadcast use lemma_skip_skip;

    if s.len() >= 8 {
        assert(s.skip(4).skip(4) == s.skip(8));
    }
}

/// The maps of a user data chunk: a size (DWORD at 0) that is not used, the number of
/// maps (DWORD at 4), then that many maps from offset 8.
pub proof fn lemma_user_data_maps_layout(s: Seq<u8>)
    ensures
        s.len() >= 8 ==> spec_user_data_maps(s) == spec_count(
            property_map_parser(),
            s.skip(8),
            le32(s.skip(4)) as nat,
        ),
        s.len() < 8 ==> spec_user_data_maps(s) is Err,
{
    broadcast use lemma_skip_skip;

    if s.len() >= 8 {
        assert(s.skip(4).skip(4) == s.skip(8));
    }
}

/// Where the text of a user data chunk ends: after the string at offset 4 when flag
/// bit 1 is set, else at offset 4.
pub open spec fn user_data_text_end(s: Seq<u8>) -> Seq<u8> {
    if (le32(s) as u32) & 1 != 0 {
        spec_string(s.skip(4))->Ok_0.0
    } else {
        s.skip(4)
    }
}

/// A user data chunk: flags (DWORD at 0); the text (a string at 4) exactly when flag
/// bit 1 is set; then the color (red, green, blue, alpha bytes) exactly when flag bit 2
/// is set; then the maps exactly when flag bit 4 is set. With none of these bits set it
/// reads the four flag bytes alone.
pub proof fn lemma_user_data_layout(s: Seq<u8>)
    ensures
        spec_user_data_chunk(s) matches Ok((rest, u)) ==> {
            let f = le32(s) as u32;
            let a = user_data_text_end(s);
            let b = if f & 2 != 0 {
                a.skip(4)
            } else {
                a
            };
            &&& (u.text is Some <==> f & 1 != 0)
            &&& (u.text matches Some(t) ==> spec_string(s.skip(4)) == ok(a, t))
            &&& (u.color is Some <==> f & 2 != 0)
            &&& (u.color matches Some(c) ==> a.len() >= 4 && c == (a[0], a[1], a[2], a[3]))
            &&& (f & 4 != 0 ==> spec_user_data_maps(b) == ok(rest, u.maps))
            &&& (f & 4 == 0 ==> rest == b && u.maps.len() == 0)
        },
        s.len() >= 4 && (le32(s) as u32) & 7 == 0 ==> spec_user_data_chunk(s) == ok(
            s.skip(4),
            SpecUserDataChunk { text: None, color: None, maps: Seq::empty() },
        ),
        s.len() >= 8 && (le32(s) as u32) & 7 == 2 ==> spec_user_data_chunk(s) == ok(
            s.skip(8),
            SpecUserDataChunk { text: None, color: Some((s[4], s[5], s[6], s[7])), maps: Seq::empty() },
        ),
        s.len() < 4 ==> spec_user_data_chunk(s) is Err,
{
    broadcast use lemma_skip_skip;

    let f = le32(s) as u32;
    if s.len() >= 4 {
        assert(f & 7 == 0 ==> f & 1 == 0 && f & 2 == 0 && f & 4 == 0) by (bit_vector);
        assert(f & 7 == 2 ==> f & 1 == 0 && f & 2 != 0 && f & 4 == 0) by (bit_vector);
        let a = user_data_text_end(s);
        if a.len() >= 4 {
            assert(a.skip(1).skip(1).skip(1).skip(1) == a.skip(4));
        }
        if s.len() >= 8 {
            assert(s.skip(4).skip(4) == s.skip(8));
        }
    }
}

/// A frame is its 16-byte header followed by its chunks, one after another from offset
/// 16: as many as the old count (WORD at 6) says, or, when that is 0xFFFF, as many as the
/// new count (DWORD at 12) says.
pub proof fn lemma_frame_layout(s: Seq<u8>)
    ensures
        spec_frame(s) matches Ok((rest, f)) ==> {
            let n: nat = if le16(s.skip(6)) == 0xFFFF {
                le32(s.skip(12)) as nat
            } else {
                le16(s.skip(6)) as nat
            };
            &&& spec_frame_header(s) == ok(s.skip(16), f.header)
            &&& f.chunks.len() == n
            &&& spec_count(chunk_parser(), s.skip(16), n) == ok(rest, f.chunks)
        },
        spec_frame_header(s) is Err ==> spec_frame(s) is Err,
{
    lemma_frame_header_layout(s);
    if let Ok((s1, h)) = spec_frame_header(s) {
        crate::parser::result::lemma_count_len(chunk_parser(), s1, crate::parser::frame::chunk_count(h));
    }
}

} // verus!
