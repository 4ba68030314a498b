pub mod chunk;
pub mod frame;
pub mod laws;
pub mod layout;
pub mod primitives;
pub mod result;

pub use chunk::{AsepriteChunk, AsepriteChunkParser, parse_aseprite_chunk};
pub use frame::{AsepriteFrameHeader, Frame, parse_aseprite_frame, parse_aseprite_frame_header};
pub use primitives::{
    BYTE, DWORD, LONG, SHORT, WORD, parse_byte, parse_dword, parse_long, parse_magic_word,
    parse_short, parse_word, skip_bytes,
};
pub use result::{ErrorKind, PResult, ParseError};
