//! Palette chunks (0x2019).
use vstd::prelude::*;

use crate::parser::chunk::AsepriteChunkParser;
use crate::parser::primitives::{
    parse_byte, parse_dword, parse_string, parse_word, skip_bytes, spec_byte, spec_dword,
    spec_skip, spec_string, spec_word, BYTE, DWORD, WORD,
};
use crate::parser::result::{
    lemma_count_err, presult_map, presult_view, spec_count, ErrorKind, PResult, SpecResult,
};

verus! {

#[derive(Debug, PartialEq, Eq)]
pub struct PaletteEntry {
    /// Bit 1: the entry has a name.
    pub flags: WORD,
    pub r: BYTE,
    pub g: BYTE,
    pub b: BYTE,
    pub a: BYTE,
    pub name: Option<String>,
}

/// The model of a palette entry.
pub struct SpecPaletteEntry {
    pub flags: u16,
    pub r: u8,
    pub g: u8,
    pub b: u8,
    pub a: u8,
    pub name: Option<Seq<char>>,
}

impl View for PaletteEntry {
    type V = SpecPaletteEntry;

    open spec fn view(&self) -> SpecPaletteEntry {
        SpecPaletteEntry {
            flags: self.flags,
            r: self.r,
            g: self.g,
            b: self.b,
            a: self.a,
            name: match self.name {
                Some(n) => Some(n@),
                None => None,
            },
        }
    }
}

#[derive(Debug, PartialEq, Eq)]
pub struct PaletteChunk {
    pub new_size: DWORD,
    pub first_index: DWORD,
    pub last_index: DWORD,
    pub entries: Vec<PaletteEntry>,
}

/// The model of a palette chunk.
pub struct SpecPaletteChunk {
    pub new_size: u32,
    pub first_index: u32,
    pub last_index: u32,
    pub entries: Seq<SpecPaletteEntry>,
}

pub open spec fn palette_entries_view(s: Seq<PaletteEntry>) -> Seq<SpecPaletteEntry> {
    s.map_values(|e: PaletteEntry| e@)
}

impl View for PaletteChunk {
    type V = SpecPaletteChunk;

    open spec fn view(&self) -> SpecPaletteChunk {
        SpecPaletteChunk {
            new_size: self.new_size,
            first_index: self.first_index,
            last_index: self.last_index,
            entries: palette_entries_view(self.entries@),
        }
    }
}

/// The number of entries a palette chunk holds: those from the first index to the
/// last, and one entry when the last index is below the first.
pub open spec fn palette_entry_count(first_index: u32, last_index: u32) -> nat {
    if last_index >= first_index {
        (last_index - first_index + 1) as nat
    } else {
        1
    }
}

/// An entry: flags, red, green, blue, alpha, and a name when flag bit 1 is set.
pub open spec fn spec_palette_entry(s: Seq<u8>) -> SpecResult<SpecPaletteEntry> {
    match spec_word(s) {
        Err(e) => Err(e),
        Ok((s1, flags)) => match spec_byte(s1) {
            Err(e) => Err(e),
            Ok((s2, r)) => match spec_byte(s2) {
                Err(e) => Err(e),
                Ok((s3, g)) => match spec_byte(s3) {
                    Err(e) => Err(e),
                    Ok((s4, b)) => match spec_byte(s4) {
                        Err(e) => Err(e),
                        Ok((s5, a)) => if flags & 1 != 0 {
                            match spec_string(s5) {
                                Err(e) => Err(e),
                                Ok((s6, n)) => Ok(
                                    (s6, SpecPaletteEntry { flags, r, g, b, a, name: Some(n) }),
                                ),
                            }
                        } else {
                            Ok((s5, SpecPaletteEntry { flags, r, g, b, a, name: None }))
                        },
                    },
                },
            },
        },
    }
}

pub open spec fn palette_entry_parser() -> spec_fn(Seq<u8>) -> SpecResult<SpecPaletteEntry> {
    |s: Seq<u8>| spec_palette_entry(s)
}

/// The head of a palette: new size, first and last index, eight reserved bytes.
pub open spec fn spec_palette_head(s: Seq<u8>) -> SpecResult<(u32, u32, u32)> {
    match spec_dword(s) {
        Err(e) => Err(e),
        Ok((s1, new_size)) => match spec_dword(s1) {
            Err(e) => Err(e),
            Ok((s2, first_index)) => match spec_dword(s2) {
                Err(e) => Err(e),
                Ok((s3, last_index)) => match spec_skip(s3, 8) {
                    Err(e) => Err(e),
                    Ok((s4, _)) => Ok((s4, (new_size, first_index, last_index))),
                },
            },
        },
    }
}

/// A palette: its head, then its entries.
pub open spec fn spec_palette_chunk(s: Seq<u8>) -> SpecResult<SpecPaletteChunk> {
    match spec_palette_head(s) {
        Err(e) => Err(e),
        Ok((s1, (new_size, first_index, last_index))) => match spec_count(
            palette_entry_parser(),
            s1,
            palette_entry_count(first_index, last_index),
        ) {
            Err(e) => Err(e),
            Ok((s2, entries)) => Ok(
                (s2, SpecPaletteChunk { new_size, first_index, last_index, entries }),
            ),
        },
    }
}

fn parse_palette_entry(input: &[u8]) -> (res: PResult<'_, PaletteEntry>)
    ensures
        presult_view(res) == spec_palette_entry(input@),
{
    let (input, flags) = parse_word(input)?;
    let (input, r) = parse_byte(input)?;
    let (input, g) = parse_byte(input)?;
    let (input, b) = parse_byte(input)?;
    let (input, a) = parse_byte(input)?;
    let (input, name) = if flags & 1 != 0 {
        let (i, n) = parse_string(input)?;
        (i, Some(n))
    } else {
        (input, None)
    };
    Ok((input, PaletteEntry { flags, r, g, b, a, name }))
}

fn parse_palette_entries(input: &[u8], n: u64) -> (res: PResult<'_, Vec<PaletteEntry>>)
    ensures
        presult_map(res, |v: Vec<PaletteEntry>| palette_entries_view(v@)) == spec_count(
            palette_entry_parser(),
            input@,
            n as nat,
        ),
{
    let mut rest = input;
    let mut entries: Vec<PaletteEntry> = Vec::new();
    let mut i: u64 = 0;
    assert(palette_entries_view(entries@) =~= Seq::empty());
    while i < n
        invariant
            i <= n,
            spec_count(palette_entry_parser(), input@, i as nat) == Ok::<_, (Seq<u8>, ErrorKind)>(
                (rest@, palette_entries_view(entries@)),
            ),
        decreases n - i,
    {
        match parse_palette_entry(rest) {
            Ok((r, e)) => {
                proof {
                    assert(palette_entries_view(entries@.push(e)) =~= palette_entries_view(
                        entries@,
                    ).push(e@));
                }
                entries.push(e);
                rest = r;
                i = i + 1;
            },
            Err(e) => {
                proof {
                    assert(palette_entry_parser()(rest@) == spec_palette_entry(rest@));
                    lemma_count_err(palette_entry_parser(), input@, (i + 1) as nat, n as nat);
                }
                return Err(e);
            },
        }
    }
    Ok((rest, entries))
}

fn parse_palette_head(input: &[u8]) -> (res: PResult<'_, (u32, u32, u32)>)
    ensures
        presult_view(res) == spec_palette_head(input@),
{
    let (input, new_size) = parse_dword(input)?;
    let (input, first_index) = parse_dword(input)?;
    let (input, last_index) = parse_dword(input)?;
    let (input, _) = skip_bytes(input, 8)?;
    Ok((input, (new_size, first_index, last_index)))
}

impl<'a> AsepriteChunkParser<'a> for PaletteChunk {
    const CHUNK_TYPE: WORD = 0x2019;

    open spec fn spec_chunk_type() -> WORD {
        0x2019
    }

    fn chunk_type() -> (t: WORD) {
        Self::CHUNK_TYPE
    }

    open spec fn spec_parse_data(input: Seq<u8>) -> SpecResult<SpecPaletteChunk> {
        spec_palette_chunk(input)
    }

    fn parse_data(input: &'a [u8]) -> (res: PResult<'a, Self>) {
        let (input, (new_size, first_index, last_index)) = parse_palette_head(input)?;
        let span: u32 = if last_index >= first_index {
            last_index - first_index
        } else {
            0
        };
        let n: u64 = span as u64 + 1;
        let (input, entries) = parse_palette_entries(input, n)?;
        Ok((input, PaletteChunk { new_size, first_index, last_index, entries }))
    }
}

} // verus!
