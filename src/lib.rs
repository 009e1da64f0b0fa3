//! A client library for a length-prefixed binary game-server protocol:
//! the VarInt codec, packet framing, zlib payload checking, the player
//! roster and its update records, and the chat component renderer.

pub mod error;
pub mod varint;
pub mod frame;
pub mod cursor;
pub mod inflate;
pub mod roster;
pub mod player_info;
pub mod packets;
pub mod text;
pub mod style;
pub mod chat;
