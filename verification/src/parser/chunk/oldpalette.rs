//! Old palette chunks (0x0004 and 0x0011): packets of colors, each after a number of
//! palette entries to skip.
use vstd::prelude::*;

use crate::parser::chunk::AsepriteChunkParser;
use crate::parser::primitives::{parse_byte, parse_word, spec_byte, spec_word, BYTE, WORD};
use crate::parser::result::{
    lemma_count_err, presult_map, presult_view, spec_count, ErrorKind, PResult, SpecResult,
};

verus! {

#[derive(Debug, Clone, Copy, PartialEq, Eq)]
pub struct OldPaletteColor {
    pub r: BYTE,
    pub g: BYTE,
    pub b: BYTE,
}

impl View for OldPaletteColor {
    type V = OldPaletteColor;

    open spec fn view(&self) -> OldPaletteColor {
        *self
    }
}

#[derive(Debug, PartialEq, Eq)]
pub struct OldPalettePacket {
    pub skip: BYTE,
    /// The number of colors as stored: 0 stands for 256.
    pub count: BYTE,
    pub colors: Vec<OldPaletteColor>,
}

/// The model of a packet.
pub struct SpecOldPalettePacket {
    pub skip: u8,
    pub count: u8,
    pub colors: Seq<OldPaletteColor>,
}

impl View for OldPalettePacket {
    type V = SpecOldPalettePacket;

    open spec fn view(&self) -> SpecOldPalettePacket {
        SpecOldPalettePacket { skip: self.skip, count: self.count, colors: self.colors@ }
    }
}

#[derive(Debug, PartialEq, Eq)]
pub struct OldPalette04Chunk {
    pub packets: Vec<OldPalettePacket>,
}

#[derive(Debug, PartialEq, Eq)]
pub struct OldPalette11Chunk {
    pub packets: Vec<OldPalettePacket>,
}

/// The model of an old palette chunk, of either type.
pub struct SpecOldPaletteChunk {
    pub packets: Seq<SpecOldPalettePacket>,
}

pub open spec fn packets_view(s: Seq<OldPalettePacket>) -> Seq<SpecOldPalettePacket> {
    s.map_values(|p: OldPalettePacket| p@)
}

impl View for OldPalette04Chunk {
    type V = SpecOldPaletteChunk;

    open spec fn view(&self) -> SpecOldPaletteChunk {
        SpecOldPaletteChunk { packets: packets_view(self.packets@) }
    }
}

impl View for OldPalette11Chunk {
    type V = SpecOldPaletteChunk;

    open spec fn view(&self) -> SpecOldPaletteChunk {
        SpecOldPaletteChunk { packets: packets_view(self.packets@) }
    }
}

/// A color: red, green, blue.
pub open spec fn spec_old_palette_color(s: Seq<u8>) -> SpecResult<OldPaletteColor> {
    match spec_byte(s) {
        Err(e) => Err(e),
        Ok((s1, r)) => match spec_byte(s1) {
            Err(e) => Err(e),
            Ok((s2, g)) => match spec_byte(s2) {
                Err(e) => Err(e),
                Ok((s3, b)) => Ok((s3, OldPaletteColor { r, g, b })),
            },
        },
    }
}

pub open spec fn color_parser() -> spec_fn(Seq<u8>) -> SpecResult<OldPaletteColor> {
    |s: Seq<u8>| spec_old_palette_color(s)
}

/// The number of colors a packet holds, from its stored count (0 stands for 256).
pub open spec fn packet_color_count(count: u8) -> nat {
    if count == 0 {
        256
    } else {
        count as nat
    }
}

/// A packet: entries to skip, the stored count, the colors.
pub open spec fn spec_old_palette_packet(s: Seq<u8>) -> SpecResult<SpecOldPalettePacket> {
    match spec_byte(s) {
        Err(e) => Err(e),
        Ok((s1, skip)) => match spec_byte(s1) {
            Err(e) => Err(e),
            Ok((s2, count)) => match spec_count(color_parser(), s2, packet_color_count(count)) {
                Err(e) => Err(e),
                Ok((s3, colors)) => Ok((s3, SpecOldPalettePacket { skip, count, colors })),
            },
        },
    }
}

pub open spec fn packet_parser() -> spec_fn(Seq<u8>) -> SpecResult<SpecOldPalettePacket> {
    |s: Seq<u8>| spec_old_palette_packet(s)
}

/// The packets: their number as a WORD, then the packets.
pub open spec fn spec_old_palette_packets(s: Seq<u8>) -> SpecResult<Seq<SpecOldPalettePacket>> {
    match spec_word(s) {
        Err(e) => Err(e),
        Ok((s1, n)) => spec_count(packet_parser(), s1, n as nat),
    }
}

pub open spec fn spec_old_palette_chunk(s: Seq<u8>) -> SpecResult<SpecOldPaletteChunk> {
    match spec_old_palette_packets(s) {
        Err(e) => Err(e),
        Ok((s1, packets)) => Ok((s1, SpecOldPaletteChunk { packets })),
    }
}

fn parse_old_palette_color(input: &[u8]) -> (res: PResult<'_, OldPaletteColor>)
    ensures
        presult_view(res) == spec_old_palette_color(input@),
{
    let (input, r) = parse_byte(input)?;
    let (input, g) = parse_byte(input)?;
    let (input, b) = parse_byte(input)?;
    Ok((input, OldPaletteColor { r, g, b }))
}

fn parse_old_palette_colors(input: &[u8], n: u16) -> (res: PResult<'_, Vec<OldPaletteColor>>)
    ensures
        presult_view(res) == spec_count(color_parser(), input@, n as nat),
{
    let mut rest = input;
    let mut colors: Vec<OldPaletteColor> = Vec::new();
    let mut i: u16 = 0;
    while i < n
        invariant
            i <= n,
            spec_count(color_parser(), input@, i as nat) == Ok::<_, (Seq<u8>, ErrorKind)>(
                (rest@, colors@),
            ),
        decreases n - i,
    {
        match parse_old_palette_color(rest) {
            Ok((r, c)) => {
                colors.push(c);
                rest = r;
                i = i + 1;
            },
            Err(e) => {
                proof {
                    assert(color_parser()(rest@) == spec_old_palette_color(rest@));
                    lemma_count_err(color_parser(), input@, (i + 1) as nat, n as nat);
                }
                return Err(e);
            },
        }
    }
    Ok((rest, colors))
}

fn parse_old_palette_packet(input: &[u8]) -> (res: PResult<'_, OldPalettePacket>)
    ensures
        presult_view(res) == spec_old_palette_packet(input@),
{
    let (input, skip) = parse_byte(input)?;
    let (input, count_byte) = parse_byte(input)?;
    let actual: u16 = if count_byte == 0 {
        256
    } else {
        count_byte as u16
    };
    let (input, colors) = parse_old_palette_colors(input, actual)?;
    Ok((input, OldPalettePacket { skip, count: count_byte, colors }))
}

fn parse_old_palette_packets(input: &[u8]) -> (res: PResult<'_, Vec<OldPalettePacket>>)
    ensures
        presult_map(res, |v: Vec<OldPalettePacket>| packets_view(v@)) == spec_old_palette_packets(
            input@,
        ),
{
    let (start, n) = parse_word(input)?;
    let mut rest = start;
    let mut packets: Vec<OldPalettePacket> = Vec::new();
    let mut i: u16 = 0;
    assert(packets_view(packets@) =~= Seq::empty());
    while i < n
        invariant
            i <= n,
            spec_word(input@) == Ok::<_, (Seq<u8>, ErrorKind)>((start@, n)),
            spec_count(packet_parser(), start@, i as nat) == Ok::<_, (Seq<u8>, ErrorKind)>(
                (rest@, packets_view(packets@)),
            ),
        decreases n - i,
    {
        match parse_old_palette_packet(rest) {
            Ok((r, p)) => {
                proof {
                    assert(packets_view(packets@.push(p)) =~= packets_view(packets@).push(p@));
                }
                packets.push(p);
                rest = r;
                i = i + 1;
            },
            Err(e) => {
                proof {
                    assert(packet_parser()(rest@) == spec_old_palette_packet(rest@));
                    lemma_count_err(packet_parser(), start@, (i + 1) as nat, n as nat);
                }
                return Err(e);
            },
        }
    }
    Ok((rest, packets))
}

impl<'a> AsepriteChunkParser<'a> for OldPalette04Chunk {
    const CHUNK_TYPE: WORD = 0x0004;

    open spec fn spec_chunk_type() -> WORD {
        0x0004
    }

    fn chunk_type() -> (t: WORD) {
        Self::CHUNK_TYPE
    }

    open spec fn spec_parse_data(input: Seq<u8>) -> SpecResult<SpecOldPaletteChunk> {
        spec_old_palette_chunk(input)
    }

    fn parse_data(input: &'a [u8]) -> (res: PResult<'a, Self>) {
        let (input, packets) = parse_old_palette_packets(input)?;
        Ok((input, OldPalette04Chunk { packets }))
    }
}

impl<'a> AsepriteChunkParser<'a> for OldPalette11Chunk {
    const CHUNK_TYPE: WORD = 0x0011;

    open spec fn spec_chunk_type() -> WORD {
        0x0011
    }

    fn chunk_type() -> (t: WORD) {
        Self::CHUNK_TYPE
    }

    open spec fn spec_parse_data(input: Seq<u8>) -> SpecResult<SpecOldPaletteChunk> {
        spec_old_palette_chunk(input)
    }

    fn parse_data(input: &'a [u8]) -> (res: PResult<'a, Self>) {
        let (input, packets) = parse_old_palette_packets(input)?;
        Ok((input, OldPalette11Chunk { packets }))
    }
}

} // verus!
