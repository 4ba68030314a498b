//! Cel chunks (0x2005): where a layer's image sits in a frame, and its pixels or
//! tiles; and cel extra chunks (0x2006).
use vstd::prelude::*;

use crate::parser::chunk::AsepriteChunkParser;
use crate::parser::primitives::{
    parse_byte, parse_dword, parse_long, parse_short, parse_word, skip_bytes, spec_byte,
    spec_dword, spec_long, spec_short, spec_skip, spec_word, take, BYTE, DWORD, FIXED,
    SHORT, WORD,
};
use crate::parser::result::{presult_view, ErrorKind, PResult, ParseError, SpecResult};

verus! {

#[derive(Debug, PartialEq, Eq)]
pub enum CelData<'a> {
    RawImage { w: WORD, h: WORD, pixels: &'a [u8] },
    Linked { frame: WORD },
    CompressedImage { w: WORD, h: WORD, zlib: &'a [u8] },
    CompressedTilemap {
        w: WORD,
        h: WORD,
        bits_per_tile: WORD,
        tile_id_mask: DWORD,
        x_flip_mask: DWORD,
        y_flip_mask: DWORD,
        diag_flip_mask: DWORD,
        zlib_tiles: &'a [u8],
    },
}

/// The model of a cel's data.
pub enum SpecCelData {
    RawImage { w: u16, h: u16, pixels: Seq<u8> },
    Linked { frame: u16 },
    CompressedImage { w: u16, h: u16, zlib: Seq<u8> },
    CompressedTilemap {
        w: u16,
        h: u16,
        bits_per_tile: u16,
        tile_id_mask: u32,
        x_flip_mask: u32,
        y_flip_mask: u32,
        diag_flip_mask: u32,
        zlib_tiles: Seq<u8>,
    },
}

impl<'a> View for CelData<'a> {
    type V = SpecCelData;

    open spec fn view(&self) -> SpecCelData {
        match *self {
            CelData::RawImage { w, h, pixels } => SpecCelData::RawImage { w, h, pixels: pixels@ },
            CelData::Linked { frame } => SpecCelData::Linked { frame },
            CelData::CompressedImage { w, h, zlib } => SpecCelData::CompressedImage {
                w,
                h,
                zlib: zlib@,
            },
            CelData::CompressedTilemap {
                w,
                h,
                bits_per_tile,
                tile_id_mask,
                x_flip_mask,
                y_flip_mask,
                diag_flip_mask,
                zlib_tiles,
            } => SpecCelData::CompressedTilemap {
                w,
                h,
                bits_per_tile,
                tile_id_mask,
                x_flip_mask,
                y_flip_mask,
                diag_flip_mask,
                zlib_tiles: zlib_tiles@,
            },
        }
    }
}

#[derive(Debug, PartialEq, Eq)]
pub struct CelChunk<'a> {
    pub layer_index: WORD,
    pub x: SHORT,
    pub y: SHORT,
    pub opacity: BYTE,
    pub z_index: SHORT,
    pub data: CelData<'a>,
}

/// The model of a cel chunk.
pub struct SpecCelChunk {
    pub layer_index: u16,
    pub x: i16,
    pub y: i16,
    pub opacity: u8,
    pub z_index: i16,
    pub data: SpecCelData,
}

impl<'a> View for CelChunk<'a> {
    type V = SpecCelChunk;

    open spec fn view(&self) -> SpecCelChunk {
        SpecCelChunk {
            layer_index: self.layer_index,
            x: self.x,
            y: self.y,
            opacity: self.opacity,
            z_index: self.z_index,
            data: self.data@,
        }
    }
}

#[derive(Debug, Clone, Copy, PartialEq, Eq)]
pub struct CelExtraChunk {
    pub flags: DWORD,
    pub precise_x: FIXED,
    pub precise_y: FIXED,
    pub width: FIXED,
    pub height: FIXED,
}

impl View for CelExtraChunk {
    type V = CelExtraChunk;

    open spec fn view(&self) -> CelExtraChunk {
        *self
    }
}

/// The width and height that start the image kinds of cel data.
pub open spec fn spec_dims(s: Seq<u8>) -> SpecResult<(u16, u16)> {
    match spec_word(s) {
        Err(e) => Err(e),
        Ok((s1, w)) => match spec_word(s1) {
            Err(e) => Err(e),
            Ok((s2, h)) => Ok((s2, (w, h))),
        },
    }
}

/// The four masks of a compressed tilemap.
pub open spec fn spec_masks(s: Seq<u8>) -> SpecResult<(u32, u32, u32, u32)> {
    match spec_dword(s) {
        Err(e) => Err(e),
        Ok((s1, a)) => match spec_dword(s1) {
            Err(e) => Err(e),
            Ok((s2, b)) => match spec_dword(s2) {
                Err(e) => Err(e),
                Ok((s3, c)) => match spec_dword(s3) {
                    Err(e) => Err(e),
                    Ok((s4, d)) => Ok((s4, (a, b, c, d))),
                },
            },
        },
    }
}

/// The data of a cel of type `cel_type`. Image and tile data take all the input that
/// is left; an unknown type fails with `Verify`.
pub open spec fn spec_cel_data(s: Seq<u8>, cel_type: u16) -> SpecResult<SpecCelData> {
    if cel_type == 0 {
        match spec_dims(s) {
            Err(e) => Err(e),
            Ok((s1, (w, h))) => Ok((Seq::empty(), SpecCelData::RawImage { w, h, pixels: s1 })),
        }
    } else if cel_type == 1 {
        match spec_word(s) {
            Err(e) => Err(e),
            Ok((s1, frame)) => Ok((s1, SpecCelData::Linked { frame })),
        }
    } else if cel_type == 2 {
        match spec_dims(s) {
            Err(e) => Err(e),
            Ok((s1, (w, h))) => Ok((Seq::empty(), SpecCelData::CompressedImage { w, h, zlib: s1 })),
        }
    } else if cel_type == 3 {
        match spec_dims(s) {
            Err(e) => Err(e),
            Ok((s1, (w, h))) => match spec_word(s1) {
                Err(e) => Err(e),
                Ok((s2, bits_per_tile)) => match spec_masks(s2) {
                    Err(e) => Err(e),
                    Ok((s3, (tile_id_mask, x_flip_mask, y_flip_mask, diag_flip_mask))) => match spec_skip(
                        s3,
                        10,
                    ) {
                        Err(e) => Err(e),
                        Ok((s4, _)) => Ok(
                            (
                                Seq::empty(),
                                SpecCelData::CompressedTilemap {
                                    w,
                                    h,
                                    bits_per_tile,
                                    tile_id_mask,
                                    x_flip_mask,
                                    y_flip_mask,
                                    diag_flip_mask,
                                    zlib_tiles: s4,
                                },
                            ),
                        ),
                    },
                },
            },
        }
    } else {
        Err((s, ErrorKind::Verify))
    }
}

/// The fixed part of a cel: layer index, x, y, opacity, cel type, z-index, and five
/// reserved bytes.
pub open spec fn spec_cel_head(s: Seq<u8>) -> SpecResult<(u16, i16, i16, u8, u16, i16)> {
    match spec_word(s) {
        Err(e) => Err(e),
        Ok((s1, layer_index)) => match spec_short(s1) {
            Err(e) => Err(e),
            Ok((s2, x)) => match spec_short(s2) {
                Err(e) => Err(e),
                Ok((s3, y)) => match spec_byte(s3) {
                    Err(e) => Err(e),
                    Ok((s4, opacity)) => match spec_word(s4) {
                        Err(e) => Err(e),
                        Ok((s5, cel_type)) => match spec_short(s5) {
                            Err(e) => Err(e),
                            Ok((s6, z_index)) => match spec_skip(s6, 5) {
                                Err(e) => Err(e),
                                Ok((s7, _)) => Ok((s7, (layer_index, x, y, opacity, cel_type, z_index))),
                            },
                        },
                    },
                },
            },
        },
    }
}

pub open spec fn spec_cel_chunk(s: Seq<u8>) -> SpecResult<SpecCelChunk> {
    match spec_cel_head(s) {
        Err(e) => Err(e),
        Ok((s1, (layer_index, x, y, opacity, cel_type, z_index))) => match spec_cel_data(
            s1,
            cel_type,
        ) {
            Err(e) => Err(e),
            Ok((s2, data)) => Ok((s2, SpecCelChunk { layer_index, x, y, opacity, z_index, data })),
        },
    }
}

pub open spec fn spec_cel_extra_chunk(s: Seq<u8>) -> SpecResult<CelExtraChunk> {
    match spec_dword(s) {
        Err(e) => Err(e),
        Ok((s1, flags)) => match spec_long(s1) {
            Err(e) => Err(e),
            Ok((s2, precise_x)) => match spec_long(s2) {
                Err(e) => Err(e),
                Ok((s3, precise_y)) => match spec_long(s3) {
                    Err(e) => Err(e),
                    Ok((s4, width)) => match spec_long(s4) {
                        Err(e) => Err(e),
                        Ok((s5, height)) => match spec_skip(s5, 16) {
                            Err(e) => Err(e),
                            Ok((s6, _)) => Ok(
                                (s6, CelExtraChunk { flags, precise_x, precise_y, width, height }),
                            ),
                        },
                    },
                },
            },
        },
    }
}

fn parse_dims(input: &[u8]) -> (res: PResult<'_, (u16, u16)>)
    ensures
        presult_view(res) == spec_dims(input@),
{
    let (input, w) = parse_word(input)?;
    let (input, h) = parse_word(input)?;
    Ok((input, (w, h)))
}

fn parse_masks(input: &[u8]) -> (res: PResult<'_, (u32, u32, u32, u32)>)
    ensures
        presult_view(res) == spec_masks(input@),
{
    let (input, a) = parse_dword(input)?;
    let (input, b) = parse_dword(input)?;
    let (input, c) = parse_dword(input)?;
    let (input, d) = parse_dword(input)?;
    Ok((input, (a, b, c, d)))
}

/// All the input that is left.
fn take_all(input: &[u8]) -> (res: (&[u8], &[u8]))
    ensures
        res.0@ == Seq::<u8>::empty(),
        res.1@ == input@,
{
    match take(input, input.len()) {
        Ok((rest, all)) => {
            assert(input@.take(input@.len() as int) =~= input@);
            (rest, all)
        },
        Err(_) => {
            assert(false);
            (input, input)
        },
    }
}

fn parse_cel_data(input: &[u8], cel_type: u16) -> (res: PResult<'_, CelData<'_>>)
    ensures
        presult_view(res) == spec_cel_data(input@, cel_type),
{
    match cel_type {
        0 => {
            let (input, (w, h)) = parse_dims(input)?;
            let (input, pixels) = take_all(input);
            Ok((input, CelData::RawImage { w, h, pixels }))
        },
        1 => {
            let (input, frame) = parse_word(input)?;
            Ok((input, CelData::Linked { frame }))
        },
        2 => {
            let (input, (w, h)) = parse_dims(input)?;
            let (input, zlib) = take_all(input);
            Ok((input, CelData::CompressedImage { w, h, zlib }))
        },
        3 => {
            let (input, (w, h)) = parse_dims(input)?;
            let (input, bits_per_tile) = parse_word(input)?;
            let (input, (tile_id_mask, x_flip_mask, y_flip_mask, diag_flip_mask)) = parse_masks(
                input,
            )?;
            let (input, _) = skip_bytes(input, 10)?;
            let (input, zlib_tiles) = take_all(input);
            Ok(
                (
                    input,
                    CelData::CompressedTilemap {
                        w,
                        h,
                        bits_per_tile,
                        tile_id_mask,
                        x_flip_mask,
                        y_flip_mask,
                        diag_flip_mask,
                        zlib_tiles,
                    },
                ),
            )
        },
        _ => Err(ParseError { input, code: ErrorKind::Verify }),
    }
}

fn parse_cel_head(input: &[u8]) -> (res: PResult<'_, (u16, i16, i16, u8, u16, i16)>)
    ensures
        presult_view(res) == spec_cel_head(input@),
{
    let (input, layer_index) = parse_word(input)?;
    let (input, x) = parse_short(input)?;
    let (input, y) = parse_short(input)?;
    let (input, opacity) = parse_byte(input)?;
    let (input, cel_type) = parse_word(input)?;
    let (input, z_index) = parse_short(input)?;
    let (input, _) = skip_bytes(input, 5)?;
    Ok((input, (layer_index, x, y, opacity, cel_type, z_index)))
}

impl<'a> AsepriteChunkParser<'a> for CelChunk<'a> {
    const CHUNK_TYPE: WORD = 0x2005;

    open spec fn spec_chunk_type() -> WORD {
        0x2005
    }

    fn chunk_type() -> (t: WORD) {
        Self::CHUNK_TYPE
    }

    open spec fn spec_parse_data(input: Seq<u8>) -> SpecResult<SpecCelChunk> {
        spec_cel_chunk(input)
    }

    fn parse_data(input: &'a [u8]) -> (res: PResult<'a, Self>) {
        let (input, (layer_index, x, y, opacity, cel_type, z_index)) = parse_cel_head(input)?;
        let (input, data) = parse_cel_data(input, cel_type)?;
        Ok((input, CelChunk { layer_index, x, y, opacity, z_index, data }))
    }
}

impl<'a> AsepriteChunkParser<'a> for CelExtraChunk {
    const CHUNK_TYPE: WORD = 0x2006;

    open spec fn spec_chunk_type() -> WORD {
        0x2006
    }

    fn chunk_type() -> (t: WORD) {
        Self::CHUNK_TYPE
    }

    open spec fn spec_parse_data(input: Seq<u8>) -> SpecResult<CelExtraChunk> {
        spec_cel_extra_chunk(input)
    }

    fn parse_data(input: &'a [u8]) -> (res: PResult<'a, Self>) {
        let (input, flags) = parse_dword(input)?;
        let (input, precise_x) = parse_long(input)?;
        let (input, precise_y) = parse_long(input)?;
        let (input, width) = parse_long(input)?;
        let (input, height) = parse_long(input)?;
        let (input, _) = skip_bytes(input, 16)?;
        Ok((input, CelExtraChunk { flags, precise_x, precise_y, width, height }))
    }
}

} // verus!
