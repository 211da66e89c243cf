//! A portable X11 server: wire protocol, resource tracking, security policy
//! and the display backend interface.
use vstd::prelude::*;

pub mod protocol;
pub mod resources;
pub mod security;
pub mod backend;
pub mod cli;

verus! {

/// Protocol version
pub const PROTOCOL_MAJOR: u16 = 11;
pub const PROTOCOL_MINOR: u16 = 0;

} // verus!
