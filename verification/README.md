# aseprite_parser

A parser for the Aseprite sprite format (`.ase` / `.aseprite`), written in Verus.
Every parser is a function on bytes whose result is stated exactly by a
specification over byte sequences, and proved against it.

- `src/parser/result.rs`: parse results and errors, their models, repetition.
- `src/parser/primitives.rs`: little-endian numbers, byte runs, UTF-8 strings, UUIDs.
- `src/parser/chunk/`: chunk framing, the `AsepriteChunkParser` trait, and one module per
  chunk type (layers, cels, palettes, tags, slices, tilesets, user data, ...).
- `src/parser/frame.rs`: frame headers and frames.
- `src/parser/laws.rs`: properties of the parsers as a whole (every parser reads a prefix
  of its input; framing does not look past what it reads; sizes and counts).
- `app/lib.rs`: floating-point values (kept as bits in the library) and nom-compatible
  results.
