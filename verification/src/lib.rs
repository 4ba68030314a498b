//! Parsing of the Aseprite sprite file format (`.ase` / `.aseprite`): frames, chunk
//! framing, and the typed chunk bodies. Every parser is a function on bytes whose
//! result is pinned down by a specification over byte sequences.
pub mod parser;
