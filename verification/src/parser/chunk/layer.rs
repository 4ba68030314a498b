//! Layer chunks (0x2004).
use vstd::prelude::*;

use crate::parser::chunk::AsepriteChunkParser;
use crate::parser::primitives::{
    parse_byte, parse_dword, parse_string, parse_uuid, parse_word, skip_bytes, spec_byte,
    spec_dword, spec_skip, spec_string, spec_uuid, spec_word, BYTE, DWORD, UUID, WORD,
};
use crate::parser::result::{presult_view, PResult, SpecResult};

verus! {

#[derive(Debug, PartialEq, Eq)]
pub struct LayerChunk {
    pub flags: WORD,
    /// 0: normal, 1: group, 2: tilemap.
    pub layer_type: WORD,
    pub child_level: WORD,
    pub default_width: WORD,
    pub default_height: WORD,
    pub blend_mode: WORD,
    pub opacity: BYTE,
    pub name: String,
    /// The tileset of a tilemap layer.
    pub tileset_index: Option<DWORD>,
    pub uuid: Option<UUID>,
}

/// The model of a layer chunk.
pub struct SpecLayerChunk {
    pub flags: u16,
    pub layer_type: u16,
    pub child_level: u16,
    pub default_width: u16,
    pub default_height: u16,
    pub blend_mode: u16,
    pub opacity: u8,
    pub name: Seq<char>,
    pub tileset_index: Option<u32>,
    pub uuid: Option<Seq<u8>>,
}

impl View for LayerChunk {
    type V = SpecLayerChunk;

    open spec fn view(&self) -> SpecLayerChunk {
        SpecLayerChunk {
            flags: self.flags,
            layer_type: self.layer_type,
            child_level: self.child_level,
            default_width: self.default_width,
            default_height: self.default_height,
            blend_mode: self.blend_mode,
            opacity: self.opacity,
            name: self.name@,
            tileset_index: self.tileset_index,
            uuid: match self.uuid {
                Some(u) => Some(u@),
                None => None,
            },
        }
    }
}

/// The six WORDs that open a layer: flags, type, child level, default width and
/// height, blend mode.
pub open spec fn spec_layer_words(s: Seq<u8>) -> SpecResult<(u16, u16, u16, u16, u16, u16)> {
    match spec_word(s) {
        Err(e) => Err(e),
        Ok((s1, a)) => match spec_word(s1) {
            Err(e) => Err(e),
            Ok((s2, b)) => match spec_word(s2) {
                Err(e) => Err(e),
                Ok((s3, c)) => match spec_word(s3) {
                    Err(e) => Err(e),
                    Ok((s4, d)) => match spec_word(s4) {
                        Err(e) => Err(e),
                        Ok((s5, e_)) => match spec_word(s5) {
                            Err(e) => Err(e),
                            Ok((s6, f)) => Ok((s6, (a, b, c, d, e_, f))),
                        },
                    },
                },
            },
        },
    }
}

/// The tileset index, present on tilemap layers (type 2) only.
pub open spec fn spec_tileset_index(s: Seq<u8>, layer_type: u16) -> SpecResult<Option<u32>> {
    if layer_type == 2 {
        match spec_dword(s) {
            Err(e) => Err(e),
            Ok((r, i)) => Ok((r, Some(i))),
        }
    } else {
        Ok((s, None))
    }
}

/// The layer's UUID, present when any input is left.
pub open spec fn spec_layer_uuid(s: Seq<u8>) -> SpecResult<Option<Seq<u8>>> {
    if s.len() == 0 {
        Ok((s, None))
    } else {
        match spec_uuid(s) {
            Err(e) => Err(e),
            Ok((r, u)) => Ok((r, Some(u))),
        }
    }
}

/// A layer: six WORDs, the opacity, three reserved bytes, the name, the tileset index
/// of a tilemap layer, and the UUID when more input is left.
pub open spec fn spec_layer_chunk(s: Seq<u8>) -> SpecResult<SpecLayerChunk> {
    match spec_layer_words(s) {
        Err(e) => Err(e),
        Ok((s1, (flags, layer_type, child_level, default_width, default_height, blend_mode))) => {
            match spec_byte(s1) {
                Err(e) => Err(e),
                Ok((s2, opacity)) => match spec_skip(s2, 3) {
                    Err(e) => Err(e),
                    Ok((s3, _)) => match spec_string(s3) {
                        Err(e) => Err(e),
                        Ok((s4, name)) => match spec_tileset_index(s4, layer_type) {
                            Err(e) => Err(e),
                            Ok((s5, tileset_index)) => match spec_layer_uuid(s5) {
                                Err(e) => Err(e),
                                Ok((s6, uuid)) => Ok(
                                    (
                                        s6,
                                        SpecLayerChunk {
                                            flags,
                                            layer_type,
                                            child_level,
                                            default_width,
                                            default_height,
                                            blend_mode,
                                            opacity,
                                            name,
                                            tileset_index,
                                            uuid,
                                        },
                                    ),
                                ),
                            },
                        },
                    },
                },
            }
        },
    }
}

fn parse_layer_words(input: &[u8]) -> (res: PResult<'_, (u16, u16, u16, u16, u16, u16)>)
    ensures
        presult_view(res) == spec_layer_words(input@),
{
    let (input, a) = parse_word(input)?;
    let (input, b) = parse_word(input)?;
    let (input, c) = parse_word(input)?;
    let (input, d) = parse_word(input)?;
    let (input, e) = parse_word(input)?;
    let (input, f) = parse_word(input)?;
    Ok((input, (a, b, c, d, e, f)))
}

impl<'a> AsepriteChunkParser<'a> for LayerChunk {
    const CHUNK_TYPE: WORD = 0x2004;

    open spec fn spec_chunk_type() -> WORD {
        0x2004
    }

    fn chunk_type() -> (t: WORD) {
        Self::CHUNK_TYPE
    }

    open spec fn spec_parse_data(input: Seq<u8>) -> SpecResult<SpecLayerChunk> {
        spec_layer_chunk(input)
    }

    fn parse_data(input: &'a [u8]) -> (res: PResult<'a, Self>) {
        let (input, (flags, layer_type, child_level, default_width, default_height, blend_mode)) =
            parse_layer_words(input)?;
        let (input, opacity) = parse_byte(input)?;
        let (input, _) = skip_bytes(input, 3)?;
        let (input, name) = parse_string(input)?;
        let (input, tileset_index) = if layer_type == 2 {
            let (i, idx) = parse_dword(input)?;
            (i, Some(idx))
        } else {
            (input, None)
        };
        let (input, uuid) = if input.len() == 0 {
            (input, None)
        } else {
            let (i, id) = parse_uuid(input)?;
            (i, Some(id))
        };
        Ok(
            (
                input,
                LayerChunk {
                    flags,
                    layer_type,
                    child_level,
                    default_width,
                    default_height,
                    blend_mode,
                    opacity,
                    name,
                    tileset_index,
                    uuid,
                },
            ),
        )
    }
}

} // verus!
