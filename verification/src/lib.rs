//! The logic of a small teaching kernel, verified with Verus: two heap
//! allocators, a BMP image loader, a PS/2 keyboard decoder, timer and serial
//! port decisions, a snake game and the front end of a Game Boy emulator.
use vstd::prelude::*;

pub mod allocator;
pub mod bitmap;
pub mod gameboy;
pub mod keyboard;
pub mod menu;
pub mod pit;
pub mod port;
pub mod serial;
pub mod snake;
pub mod snake_screen;

verus! {
} // verus!
