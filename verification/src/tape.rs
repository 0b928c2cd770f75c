//! Cells, segments and segment identities: the arithmetic of the tape.
//!
//! The tape is cut into segments of one window each. A cell is a byte that
//! wraps modulo 256; a segment identity is a 128-bit number that wraps as
//! well, so the chain of segments closes into a ring.

use vstd::prelude::*;

verus! {

/// The window size of the standard tape.
pub const TAPE_WINDOW: usize = 30_000;

/// A cell's value after `+`.
pub open spec fn incremented(value: u8) -> u8 {
    ((value + 1) % 256) as u8
}

/// A cell's value after `-`.
pub open spec fn decremented(value: u8) -> u8 {
    ((value + 255) % 256) as u8
}

/// The low eight bits of a character's code point.
pub open spec fn low_byte(c: char) -> u8 {
    (c as u32 % 256) as u8
}

/// The identity of the segment to the right.
pub open spec fn next_identity(identity: u128) -> u128 {
    if identity == u128::MAX {
        0
    } else {
        (identity + 1) as u128
    }
}

/// The identity of the segment to the left.
pub open spec fn previous_identity(identity: u128) -> u128 {
    if identity == 0 {
        u128::MAX
    } else {
        (identity - 1) as u128
    }
}

/// A segment of `window` cells that all hold zero.
pub open spec fn zeroed(window: usize) -> Seq<u8> {
    Seq::new(window as nat, |i: int| 0u8)
}

/// Adds one to a cell, wrapping from 255 to 0.
pub fn increment(value: u8) -> (next: u8)
    ensures
        next == incremented(value),
{
    if value == 255 {
        0
    } else {
        value + 1
    }
}

/// Takes one from a cell, wrapping from 0 to 255.
pub fn decrement(value: u8) -> (next: u8)
    ensures
        next == decremented(value),
{
    if value == 0 {
        255
    } else {
        value - 1
    }
}

/// Truncates a character to the eight bits a cell can hold.
pub fn truncate(c: char) -> (byte: u8)
    ensures
        byte == low_byte(c),
{
    (c as u32 % 256) as u8
}

/// Steps a segment identity to the right, wrapping from the highest to 0.
pub fn identity_after(identity: u128) -> (next: u128)
    ensures
        next == next_identity(identity),
{
    if identity == u128::MAX {
        0
    } else {
        identity + 1
    }
}

/// Steps a segment identity to the left, wrapping from 0 to the highest.
pub fn identity_before(identity: u128) -> (next: u128)
    ensures
        next == previous_identity(identity),
{
    if identity == 0 {
        u128::MAX
    } else {
        identity - 1
    }
}

/// A fresh segment: `window` cells of zero.
pub fn fresh_segment(window: usize) -> (segment: Vec<u8>)
    ensures
        segment@ == zeroed(window),
{
    let segment = vec![0u8; window];
    assert(segment@ =~= zeroed(window));
    segment
}

/// Stepping right and then left, or left and then right, returns to the
/// same segment, and a step never stays where it is.
pub proof fn law_identity_ring(identity: u128)
    ensures
        previous_identity(next_identity(identity)) == identity,
        next_identity(previous_identity(identity)) == identity,
        next_identity(identity) != identity,
        previous_identity(identity) != identity,
{
}

/// Cell arithmetic is arithmetic modulo 256: 255 steps up to 0, 0 steps
/// down to 255, and the two steps undo each other.
pub proof fn law_cell_ring(value: u8)
    ensures
        incremented(255) == 0,
        decremented(0) == 255,
        value < 255 ==> incremented(value) == value + 1,
        value > 0 ==> decremented(value) == value - 1,
        decremented(incremented(value)) == value,
        incremented(decremented(value)) == value,
{
}

} // verus!
