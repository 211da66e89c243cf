//! X11 protocol implementation: the wire types, requests, replies, events and errors.
use vstd::prelude::*;

pub mod types;
pub mod wire;
pub mod errors;
pub mod requests;
pub mod parser;
pub mod setup;
pub mod events;
pub mod encoder;

verus! {

/// X11 protocol version
pub const PROTOCOL_MAJOR_VERSION: u16 = 11;
pub const PROTOCOL_MINOR_VERSION: u16 = 0;

/// Number of padding bytes that bring `n` up to a multiple of four.
pub open spec fn spec_pad(n: int) -> int {
    (4 - (n % 4)) % 4
}

/// Padding helper: X11 pads data to 4-byte boundaries.
pub fn pad(n: usize) -> (r: usize)
    ensures
        r == spec_pad(n as int),
        r < 4,
        (n + r) % 4 == 0,
{
    (4 - (n % 4)) % 4
}

/// `n` rounded up to a multiple of four.
pub fn padded_len(n: usize) -> (r: usize)
    requires
        n + spec_pad(n as int) <= usize::MAX,
    ensures
        r == n + spec_pad(n as int),
        r % 4 == 0,
        n <= r < n + 4,
{
    n + pad(n)
}

} // verus!
