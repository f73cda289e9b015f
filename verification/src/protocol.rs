//! Records and opcodes exchanged between a capture server and its clients.

pub mod camera;
pub mod fs;
pub mod stream;
