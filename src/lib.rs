//! A codec for the HTTP/2 framing layer: the fixed nine-byte frame header,
//! the body layout of each frame kind, and the encoders that invert them.
#![allow(non_camel_case_types)]

pub mod codes;
pub mod encoders;
pub mod flags;
pub mod frames;
pub mod laws;
pub mod parsers;
pub mod wire;
