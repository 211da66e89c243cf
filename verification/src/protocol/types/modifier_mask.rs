//! Keyboard and pointer modifier mask bits.
use vstd::prelude::*;

verus! {

pub const SHIFT: u16 = 1;
pub const LOCK: u16 = 2;
pub const CONTROL: u16 = 4;
pub const MOD1: u16 = 8;
pub const MOD2: u16 = 16;
pub const MOD3: u16 = 32;
pub const MOD4: u16 = 64;
pub const MOD5: u16 = 128;
pub const BUTTON1: u16 = 256;
pub const BUTTON2: u16 = 512;
pub const BUTTON3: u16 = 1024;
pub const BUTTON4: u16 = 2048;
pub const BUTTON5: u16 = 4096;

} // verus!
