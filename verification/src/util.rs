//! Random draws and small helpers shared by server and client.

use rand::Rng;
use vstd::prelude::*;
use crate::wire::Color;

verus! {

/// Draws a number from the half-open range `low..high` with the thread's
/// random number generator, by `rand::Rng::gen_range` on
/// `rand::thread_rng()`. Which number comes back is left open; it lies in
/// the range. The call panics on an empty range, which `requires` excludes.
#[verifier::external_body]
fn draw(low: u64, high: u64) -> (value: u64)
    requires
        low < high,
    ensures
        low <= value < high,
{
    rand::thread_rng().gen_range(low, high)
}

/// A random number below `max`.
pub fn rand_int(max: u32) -> (value: u32)
    requires
        0 < max,
    ensures
        value < max,
{
    draw(0, max as u64) as u32
}

/// A random number below `max`.
pub fn rand_usize(max: usize) -> (value: usize)
    requires
        0 < max,
    ensures
        value < max,
{
    draw(0, max as u64) as usize
}

/// The number that lies `offset` above `min`.
pub fn shifted(min: i32, offset: u64) -> (value: i32)
    requires
        min + offset <= i32::MAX,
    ensures
        value == min + offset,
{
    (min as i64 + offset as i64) as i32
}

/// A random number in `min..max`: `min` shifted by a draw below the width
/// of the range.
pub fn rand_intr(min: i32, max: i32) -> (value: i32)
    requires
        min < max,
    ensures
        min <= value < max,
{
    let width: u64 = (max as i64 - min as i64) as u64;
    let offset: u64 = draw(0, width);
    shifted(min, offset)
}

/// A random six-digit identifier.
pub fn uid() -> (value: usize)
    ensures
        100000 <= value < 999999,
{
    draw(100000, 999999) as usize
}

/// One of `values`, chosen at random.
pub fn pick(values: &[usize]) -> (value: usize)
    requires
        values@.len() > 0,
    ensures
        values@.contains(value),
{
    let at: usize = rand_usize(values.len());
    values[at]
}

/// Whether the pattern `bits` of a single-precision float is a NaN.
pub open spec fn is_nan(bits: u32) -> bool {
    bits % 0x8000_0000 > 0x7f80_0000
}

/// Whether two single-precision floats, given by their patterns, compare
/// equal: neither is a NaN, and they are the same pattern or both a zero.
pub open spec fn float_eq(a: u32, b: u32) -> bool {
    &&& !is_nan(a)
    &&& !is_nan(b)
    &&& (a == b || (a % 0x8000_0000 == 0 && b % 0x8000_0000 == 0))
}

/// Compares two channel values as the floats they stand for.
fn same_channel(a: u32, b: u32) -> (same: bool)
    ensures
        same == float_eq(a, b),
{
    let a_magnitude: u32 = a % 0x8000_0000;
    let b_magnitude: u32 = b % 0x8000_0000;
    a_magnitude <= 0x7f80_0000 && b_magnitude <= 0x7f80_0000 && (a == b || (a_magnitude == 0
        && b_magnitude == 0))
}

/// Whether two colours are equal channel by channel, as floats.
pub fn same_col(a: &Color, b: &Color) -> (same: bool)
    ensures
        same == (float_eq(a.r, b.r) && float_eq(a.g, b.g) && float_eq(a.b, b.b)),
{
    same_channel(a.r, b.r) && same_channel(a.g, b.g) && same_channel(a.b, b.b)
}

} // verus!
