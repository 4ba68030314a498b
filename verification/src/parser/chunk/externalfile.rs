//! External files chunks (0x2008): files that palettes, tilesets or extensions refer to.
use vstd::prelude::*;

use crate::parser::chunk::AsepriteChunkParser;
use crate::parser::primitives::{
    parse_byte, parse_dword, parse_string, skip_bytes, spec_byte, spec_dword, spec_skip,
    spec_string, BYTE, DWORD, WORD,
};
use crate::parser::result::{
    lemma_count_err, presult_map, presult_view, spec_count, ErrorKind, PResult, SpecResult,
};

verus! {

#[derive(Debug, PartialEq, Eq)]
pub struct ExternalFileEntry {
    pub id: DWORD,
    /// 0: palette, 1: tileset, 2: properties extension, 3: tile management extension.
    pub kind: BYTE,
    pub name: String,
}

/// The model of an external file entry.
pub struct SpecExternalFileEntry {
    pub id: u32,
    pub kind: u8,
    pub name: Seq<char>,
}

impl View for ExternalFileEntry {
    type V = SpecExternalFileEntry;

    open spec fn view(&self) -> SpecExternalFileEntry {
        SpecExternalFileEntry { id: self.id, kind: self.kind, name: self.name@ }
    }
}

#[derive(Debug, PartialEq, Eq)]
pub struct ExternalFilesChunk {
    pub entries: Vec<ExternalFileEntry>,
}

/// The model of an external files chunk.
pub struct SpecExternalFilesChunk {
    pub entries: Seq<SpecExternalFileEntry>,
}

pub open spec fn entries_view(s: Seq<ExternalFileEntry>) -> Seq<SpecExternalFileEntry> {
    s.map_values(|e: ExternalFileEntry| e@)
}

impl View for ExternalFilesChunk {
    type V = SpecExternalFilesChunk;

    open spec fn view(&self) -> SpecExternalFilesChunk {
        SpecExternalFilesChunk { entries: entries_view(self.entries@) }
    }
}

/// An entry: its id, its kind, seven reserved bytes, its file name.
pub open spec fn spec_external_file_entry(s: Seq<u8>) -> SpecResult<SpecExternalFileEntry> {
    match spec_dword(s) {
        Err(e) => Err(e),
        Ok((s1, id)) => match spec_byte(s1) {
            Err(e) => Err(e),
            Ok((s2, kind)) => match spec_skip(s2, 7) {
                Err(e) => Err(e),
                Ok((s3, _)) => match spec_string(s3) {
                    Err(e) => Err(e),
                    Ok((s4, name)) => Ok((s4, SpecExternalFileEntry { id, kind, name })),
                },
            },
        },
    }
}

pub open spec fn entry_parser() -> spec_fn(Seq<u8>) -> SpecResult<SpecExternalFileEntry> {
    |s: Seq<u8>| spec_external_file_entry(s)
}

/// The chunk: the number of entries, eight reserved bytes, the entries.
pub open spec fn spec_external_files_chunk(s: Seq<u8>) -> SpecResult<SpecExternalFilesChunk> {
    match spec_dword(s) {
        Err(e) => Err(e),
        Ok((s1, n)) => match spec_skip(s1, 8) {
            Err(e) => Err(e),
            Ok((s2, _)) => match spec_count(entry_parser(), s2, n as nat) {
                Err(e) => Err(e),
                Ok((s3, entries)) => Ok((s3, SpecExternalFilesChunk { entries })),
            },
        },
    }
}

fn parse_external_file_entry(input: &[u8]) -> (res: PResult<'_, ExternalFileEntry>)
    ensures
        presult_view(res) == spec_external_file_entry(input@),
{
    let (input, id) = parse_dword(input)?;
    let (input, kind) = parse_byte(input)?;
    let (input, _) = skip_bytes(input, 7)?;
    let (input, name) = parse_string(input)?;
    Ok((input, ExternalFileEntry { id, kind, name }))
}

fn parse_external_file_entries(input: &[u8], n: u32) -> (res: PResult<'_, Vec<ExternalFileEntry>>)
    ensures
        presult_map(res, |v: Vec<ExternalFileEntry>| entries_view(v@)) == spec_count(
            entry_parser(),
            input@,
            n as nat,
        ),
{
    let mut rest = input;
    let mut entries: Vec<ExternalFileEntry> = Vec::new();
    let mut i: u32 = 0;
    assert(entries_view(entries@) =~= Seq::empty());
    while i < n
        invariant
            i <= n,
            spec_count(entry_parser(), input@, i as nat) == Ok::<_, (Seq<u8>, ErrorKind)>(
                (rest@, entries_view(entries@)),
            ),
        decreases n - i,
    {
        match parse_external_file_entry(rest) {
            Ok((r, e)) => {
                proof {
                    assert(entries_view(entries@.push(e)) =~= entries_view(entries@).push(e@));
                }
                entries.push(e);
                rest = r;
                i = i + 1;
            },
            Err(e) => {
                proof {
                    assert(entry_parser()(rest@) == spec_external_file_entry(rest@));
                    lemma_count_err(entry_parser(), input@, (i + 1) as nat, n as nat);
                }
                return Err(e);
            },
        }
    }
    Ok((rest, entries))
}

impl<'a> AsepriteChunkParser<'a> for ExternalFilesChunk {
    const CHUNK_TYPE: WORD = 0x2008;

    open spec fn spec_chunk_type() -> WORD {
        0x2008
    }

    fn chunk_type() -> (t: WORD) {
        Self::CHUNK_TYPE
    }

    open spec fn spec_parse_data(input: Seq<u8>) -> SpecResult<SpecExternalFilesChunk> {
        spec_external_files_chunk(input)
    }

    fn parse_data(input: &'a [u8]) -> (res: PResult<'a, Self>) {
        let (input, num_entries) = parse_dword(input)?;
        let (input, _) = skip_bytes(input, 8)?;
        let (input, entries) = parse_external_file_entries(input, num_entries)?;
        Ok((input, ExternalFilesChunk { entries }))
    }
}

} // verus!
