//! The random draws of a run, taken from the generator of the `rand` crate.
//!
//! Nothing is proved of the generator. What the rest of the library relies on
//! is stated in the contract of the one private function that calls it: a
//! draw lies within the bounds that were asked for.

use crate::config::{offset_allowed, offset_bounds};
use rand::rngs::ThreadRng;
use rand::Rng;
use vstd::prelude::*;

verus! {

/// The handle of `rand` to the generator of the current thread. Its state is
/// not modelled: a draw may give any value within its bounds.
#[verifier::external_type_specification]
#[verifier::external_body]
pub struct ExThreadRng(rand::rngs::ThreadRng);

/// Calls `Rng::gen_range` of `rand` on the half-open range `low..high`.
/// `gen_range` panics on an empty range, which `requires` leaves out; on any
/// other it returns a number of the range.
#[verifier::external_body]
fn gen_range(rng: &mut ThreadRng, low: u64, high: u64) -> (value: u64)
    requires
        low < high,
    ensures
        low <= value < high,
{
    rng.gen_range(low..high)
}

/// Draws a number below `bound`.
pub fn draw_below(rng: &mut ThreadRng, bound: u64) -> (draw: u64)
    requires
        bound > 0,
    ensures
        draw < bound,
{
    gen_range(rng, 0, bound)
}

/// Draws the offset at which a side of length `side` is cut.
pub fn draw_offset(rng: &mut ThreadRng, side: u32) -> (offset: u32)
    requires
        side > 0,
    ensures
        offset_allowed(side as int, offset as int),
{
    let (low, high) = offset_bounds(side);
    gen_range(rng, low as u64, high as u64) as u32
}

/// Draws a palette of `count` colours, each channel of each colour on its
/// own, red before green before blue.
pub fn random_palette(rng: &mut ThreadRng, count: u32) -> (palette: Vec<(u8, u8, u8)>)
    ensures
        palette@.len() == count,
{
    let mut palette: Vec<(u8, u8, u8)> = Vec::new();
    let mut i: u32 = 0;
    while i < count
        invariant
            i <= count,
            palette@.len() == i,
        decreases count - i,
    {
        let r = draw_below(rng, 256) as u8;
        let g = draw_below(rng, 256) as u8;
        let b = draw_below(rng, 256) as u8;
        palette.push((r, g, b));
        i += 1;
    }
    palette
}

} // verus!
