//! A fixed-capacity grid of coloured text cells that remembers which part of
//! it changed since it was last handed to a renderer, and the consumer's end
//! of a queue that carries text from a reader thread to the loop that draws.

pub mod character;
pub mod character_buffer;
pub mod dirty_range;
pub mod trace;
pub mod try_read;
