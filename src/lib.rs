//! Decoder for the opcode lists that DNG raw files carry: a count-prefixed
//! sequence of tagged, length-checked correction records.

pub mod bytes;
pub mod opcode;
pub mod list;
pub mod laws;
pub mod geometry;
pub mod encode;
