//! A block-copy engine: bytes are gathered from a source into blocks of a
//! fixed size and handed to a destination, up to a limit on whole blocks.

pub mod buffer;
pub mod session;
pub mod copy;
pub mod progress;
