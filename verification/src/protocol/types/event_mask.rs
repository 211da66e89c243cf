//! Event mask bits.
use vstd::prelude::*;

verus! {

pub const NO_EVENT: u32 = 0;
pub const KEY_PRESS: u32 = 1;
pub const KEY_RELEASE: u32 = 2;
pub const BUTTON_PRESS: u32 = 4;
pub const BUTTON_RELEASE: u32 = 8;
pub const ENTER_WINDOW: u32 = 16;
pub const LEAVE_WINDOW: u32 = 32;
pub const POINTER_MOTION: u32 = 64;
pub const POINTER_MOTION_HINT: u32 = 128;
pub const BUTTON1_MOTION: u32 = 256;
pub const BUTTON2_MOTION: u32 = 512;
pub const BUTTON3_MOTION: u32 = 1024;
pub const BUTTON4_MOTION: u32 = 2048;
pub const BUTTON5_MOTION: u32 = 4096;
pub const BUTTON_MOTION: u32 = 8192;
pub const KEYMAP_STATE: u32 = 16384;
pub const EXPOSURE: u32 = 32768;
pub const VISIBILITY_CHANGE: u32 = 65536;
pub const STRUCTURE_NOTIFY: u32 = 131072;
pub const RESIZE_REDIRECT: u32 = 262144;
pub const SUBSTRUCTURE_NOTIFY: u32 = 524288;
pub const SUBSTRUCTURE_REDIRECT: u32 = 1048576;
pub const FOCUS_CHANGE: u32 = 2097152;
pub const PROPERTY_CHANGE: u32 = 4194304;
pub const COLORMAP_CHANGE: u32 = 8388608;
pub const OWNER_GRAB_BUTTON: u32 = 16777216;

} // verus!
