//! Byte buffers: where encoded bytes live, how they are read and written.

pub mod shared;
pub mod marker;
pub mod utf8;
pub mod bytestr;
pub mod input;
pub mod output;
