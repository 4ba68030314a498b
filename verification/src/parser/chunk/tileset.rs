//! Tileset chunks (0x2023).
use vstd::prelude::*;

use crate::parser::chunk::AsepriteChunkParser;
use crate::parser::primitives::{
    parse_dword, parse_short, parse_string, parse_word, skip_bytes, spec_dword, spec_short,
    spec_skip, spec_string, spec_take, spec_word, take, DWORD, SHORT, WORD,
};
use crate::parser::result::{presult_view, PResult, SpecResult};

verus! {

#[derive(Debug, PartialEq, Eq)]
pub struct TilesetChunk<'a> {
    pub id: DWORD,
    pub flags: DWORD,
    pub num_tiles: DWORD,
    pub tile_width: WORD,
    pub tile_height: WORD,
    pub base_index: SHORT,
    pub name: String,
    /// The external file id and the tileset id in it (flag bit 1).
    pub external: Option<(DWORD, DWORD)>,
    /// The compressed tiles image (flag bit 2).
    pub compressed_image: Option<&'a [u8]>,
}

/// The model of a tileset chunk.
pub struct SpecTilesetChunk {
    pub id: u32,
    pub flags: u32,
    pub num_tiles: u32,
    pub tile_width: u16,
    pub tile_height: u16,
    pub base_index: i16,
    pub name: Seq<char>,
    pub external: Option<(u32, u32)>,
    pub compressed_image: Option<Seq<u8>>,
}

impl<'a> View for TilesetChunk<'a> {
    type V = SpecTilesetChunk;

    open spec fn view(&self) -> SpecTilesetChunk {
        SpecTilesetChunk {
            id: self.id,
            flags: self.flags,
            num_tiles: self.num_tiles,
            tile_width: self.tile_width,
            tile_height: self.tile_height,
            base_index: self.base_index,
            name: self.name@,
            external: self.external,
            compressed_image: match self.compressed_image {
                Some(d) => Some(d@),
                None => None,
            },
        }
    }
}

/// The fixed head of a tileset: id, flags, number of tiles, tile width and height,
/// base index, fourteen reserved bytes.
pub open spec fn spec_tileset_head(s: Seq<u8>) -> SpecResult<(u32, u32, u32, u16, u16, i16)> {
    match spec_dword(s) {
        Err(e) => Err(e),
        Ok((s1, id)) => match spec_dword(s1) {
            Err(e) => Err(e),
            Ok((s2, flags)) => match spec_dword(s2) {
                Err(e) => Err(e),
                Ok((s3, num_tiles)) => match spec_word(s3) {
                    Err(e) => Err(e),
                    Ok((s4, tile_width)) => match spec_word(s4) {
                        Err(e) => Err(e),
                        Ok((s5, tile_height)) => match spec_short(s5) {
                            Err(e) => Err(e),
                            Ok((s6, base_index)) => match spec_skip(s6, 14) {
                                Err(e) => Err(e),
                                Ok((s7, _)) => Ok(
                                    (s7, (id, flags, num_tiles, tile_width, tile_height, base_index)),
                                ),
                            },
                        },
                    },
                },
            },
        },
    }
}

/// The external file reference, read when flag bit 1 is set.
pub open spec fn spec_tileset_external(s: Seq<u8>, flags: u32) -> SpecResult<Option<(u32, u32)>> {
    if flags & 1 != 0 {
        match spec_dword(s) {
            Err(e) => Err(e),
            Ok((s1, file_id)) => match spec_dword(s1) {
                Err(e) => Err(e),
                Ok((s2, ts_id)) => Ok((s2, Some((file_id, ts_id)))),
            },
        }
    } else {
        Ok((s, None))
    }
}

/// The compressed image (a DWORD length, then that many bytes), read when flag bit 2
/// is set.
pub open spec fn spec_tileset_image(s: Seq<u8>, flags: u32) -> SpecResult<Option<Seq<u8>>> {
    if flags & 2 != 0 {
        match spec_dword(s) {
            Err(e) => Err(e),
            Ok((s1, len)) => match spec_take(s1, len as nat) {
                Err(e) => Err(e),
                Ok((s2, d)) => Ok((s2, Some(d))),
            },
        }
    } else {
        Ok((s, None))
    }
}

pub open spec fn spec_tileset_chunk(s: Seq<u8>) -> SpecResult<SpecTilesetChunk> {
    match spec_tileset_head(s) {
        Err(e) => Err(e),
        Ok((s1, (id, flags, num_tiles, tile_width, tile_height, base_index))) => match spec_string(
            s1,
        ) {
            Err(e) => Err(e),
            Ok((s2, name)) => match spec_tileset_external(s2, flags) {
                Err(e) => Err(e),
                Ok((s3, external)) => match spec_tileset_image(s3, flags) {
                    Err(e) => Err(e),
                    Ok((s4, compressed_image)) => Ok(
                        (
                            s4,
                            SpecTilesetChunk {
                                id,
                                flags,
                                num_tiles,
                                tile_width,
                                tile_height,
                                base_index,
                                name,
                                external,
                                compressed_image,
                            },
                        ),
                    ),
                },
            },
        },
    }
}

fn parse_tileset_head(input: &[u8]) -> (res: PResult<'_, (u32, u32, u32, u16, u16, i16)>)
    ensures
        presult_view(res) == spec_tileset_head(input@),
{
    let (input, id) = parse_dword(input)?;
    let (input, flags) = parse_dword(input)?;
    let (input, num_tiles) = parse_dword(input)?;
    let (input, tile_width) = parse_word(input)?;
    let (input, tile_height) = parse_word(input)?;
    let (input, base_index) = parse_short(input)?;
    let (input, _) = skip_bytes(input, 14)?;
    Ok((input, (id, flags, num_tiles, tile_width, tile_height, base_index)))
}

impl<'a> AsepriteChunkParser<'a> for TilesetChunk<'a> {
    const CHUNK_TYPE: WORD = 0x2023;

    open spec fn spec_chunk_type() -> WORD {
        0x2023
    }

    fn chunk_type() -> (t: WORD) {
        Self::CHUNK_TYPE
    }

    open spec fn spec_parse_data(input: Seq<u8>) -> SpecResult<SpecTilesetChunk> {
        spec_tileset_chunk(input)
    }

    fn parse_data(input: &'a [u8]) -> (res: PResult<'a, Self>) {
        let (input, (id, flags, num_tiles, tile_width, tile_height, base_index)) =
            parse_tileset_head(input)?;
        let (input, name) = parse_string(input)?;
        let (input, external) = if flags & 1 != 0 {
            let (i, file_id) = parse_dword(input)?;
            let (i, ts_id) = parse_dword(i)?;
            (i, Some((file_id, ts_id)))
        } else {
            (input, None)
        };
        let (input, compressed_image) = if flags & 2 != 0 {
            let (i, len) = parse_dword(input)?;
            let (i, data) = take(i, len as usize)?;
            (i, Some(data))
        } else {
            (input, None)
        };
        Ok(
            (
                input,
                TilesetChunk {
                    id,
                    flags,
                    num_tiles,
                    tile_width,
                    tile_height,
                    base_index,
                    name,
                    external,
                    compressed_image,
                },
            ),
        )
    }
}

} // verus!
