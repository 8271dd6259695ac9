//! ActiveLook smart-glasses wire protocol: a command/response codec, the packet
//! framer that wraps its output, the payload chunker and the client-side
//! correlation logic.

pub mod chunk;
pub mod client;
pub mod commands;
pub mod fields;
pub mod font;
pub mod image;
pub mod protocol;
pub mod responses;
pub mod traits;
pub mod wire;

