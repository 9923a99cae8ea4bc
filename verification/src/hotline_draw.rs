//! Gradient sampling for drawing a hotline path segment by segment.
//!
//! The host plugin renders its palette into a 256-entry column of RGBA
//! bytes and picks the color of a value by clamping the value's position
//! between the min and max thresholds to `[0, 0.999]`, scaling to the 256
//! entries, and reading the three color bytes at the resulting offset.
//! These functions compute those byte offsets exactly.

use vstd::arithmetic::div_mod::{lemma_div_pos_is_pos, lemma_multiply_divide_lt};
use vstd::prelude::*;

use crate::frac::{frac_lt, Frac};

verus! {

/// The byte offset of the palette sample picked for `v` between the
/// thresholds `mn` and `mx`: the relative position `(v - mn) / (mx - mn)`
/// clamped to `[0, 0.999]`, scaled to 256 palette rows of 4 bytes each.
/// Meaningful when `mn < mx` as rationals.
pub open spec fn palette_index(v: Frac, mn: Frac, mx: Frac) -> int {
    let a = v.num * mn.den - mn.num * v.den;
    let ad = a * (mx.den * mn.den);
    let bc = (v.den * mn.den) * (mx.num * mn.den - mn.num * mx.den);
    if a <= 0 {
        0
    } else if 1000 * ad >= 999 * bc {
        1020
    } else {
        4 * ((256 * ad) / bc)
    }
}

/// Bounds on a product from bounds on its factors.
proof fn lemma_mul_bounds(a: int, b: int, ba: int, bb: int)
    by (nonlinear_arith)
    requires
        0 <= ba,
        0 <= bb,
        -ba <= a <= ba,
        -bb <= b <= bb,
    ensures
        -(ba * bb) <= a * b <= ba * bb,
        a > 0 && b > 0 ==> a * b > 0,
{
}

/// The three palette byte offsets (red, green, blue) of the color sampled
/// for `value` between the thresholds `min` and `max`.
pub fn get_rgb_for_value(value: &Frac, min: &Frac, max: &Frac) -> (r: (u32, u32, u32))
    requires
        value.bounded(),
        min.bounded(),
        max.bounded(),
        frac_lt(*min, *max),
    ensures
        r.0 == palette_index(*value, *min, *max),
        r.1 == r.0 + 1,
        r.2 == r.0 + 2,
        r.0 <= 1020,
{
    proof {
        lemma_mul_bounds(value.num as int, min.den as int, 100_000_000, 100_000_000);
        lemma_mul_bounds(min.num as int, value.den as int, 100_000_000, 100_000_000);
        lemma_mul_bounds(value.den as int, min.den as int, 100_000_000, 100_000_000);
        lemma_mul_bounds(max.num as int, min.den as int, 100_000_000, 100_000_000);
        lemma_mul_bounds(min.num as int, max.den as int, 100_000_000, 100_000_000);
        lemma_mul_bounds(max.den as int, min.den as int, 100_000_000, 100_000_000);
    }
    let a: i128 = (value.num as i128) * (min.den as i128) - (min.num as i128) * (value.den
        as i128);
    let b: i128 = (value.den as i128) * (min.den as i128);
    let c: i128 = (max.num as i128) * (min.den as i128) - (min.num as i128) * (max.den as i128);
    let d: i128 = (max.den as i128) * (min.den as i128);
    proof {
        lemma_mul_bounds(a as int, d as int, 20_000_000_000_000_000, 10_000_000_000_000_000);
        lemma_mul_bounds(b as int, c as int, 10_000_000_000_000_000, 20_000_000_000_000_000);
    }
    let ad: i128 = a * d;
    let bc: i128 = b * c;
    if a <= 0 {
        (0, 1, 2)
    } else if 1000 * ad >= 999 * bc {
        (1020, 1021, 1022)
    } else {
        proof {
            // the relative position is strictly positive and below one, so
            // the scaled offset stays under 256 rows
            assert(c > 0);
            assert(ad > 0);
            assert(bc > 0);
            assert(256 * ad < bc * 256);
            lemma_div_pos_is_pos(256 * (ad as int), bc as int);
            lemma_multiply_divide_lt(256 * (ad as int), bc as int, 256);
        }
        let nmr: u128 = (256 * ad) as u128;
        let dnm: u128 = bc as u128;
        let q: u128 = nmr / dnm;
        let idx: u32 = (4 * q) as u32;
        (idx, idx + 1, idx + 2)
    }
}

/// The gradient endpoints of each path segment: for each adjacent pair of
/// values, the palette byte offsets of the segment's start and end colors.
/// A path of `n` positions has `n - 1` segments; an empty path has none.
pub fn hotline_color_stops(vals: &Vec<Frac>, min: &Frac, max: &Frac) -> (r: Vec<
    ((u32, u32, u32), (u32, u32, u32)),
>)
    requires
        forall|i: int| 0 <= i < vals@.len() ==> (#[trigger] vals@[i]).bounded(),
        min.bounded(),
        max.bounded(),
        frac_lt(*min, *max),
    ensures
        vals@.len() == 0 ==> r@.len() == 0,
        vals@.len() > 0 ==> r@.len() == vals@.len() - 1,
        forall|j: int|
            0 <= j < r@.len() ==> (#[trigger] r@[j]).0.0 == palette_index(vals@[j], *min, *max)
                && r@[j].0.1 == palette_index(vals@[j], *min, *max) + 1 && r@[j].0.2
                == palette_index(vals@[j], *min, *max) + 2 && r@[j].1.0 == palette_index(
                vals@[j + 1],
                *min,
                *max,
            ) && r@[j].1.1 == palette_index(vals@[j + 1], *min, *max) + 1 && r@[j].1.2
                == palette_index(vals@[j + 1], *min, *max) + 2,
{
    let mut r: Vec<((u32, u32, u32), (u32, u32, u32))> = Vec::new();
    if vals.len() == 0 {
        return r;
    }
    let mut j: usize = 1;
    while j < vals.len()
        invariant
            1 <= j <= vals@.len(),
            forall|i: int| 0 <= i < vals@.len() ==> (#[trigger] vals@[i]).bounded(),
            min.bounded(),
            max.bounded(),
            frac_lt(*min, *max),
            r@.len() == j - 1,
            forall|t: int|
                0 <= t < r@.len() ==> (#[trigger] r@[t]).0.0 == palette_index(
                    vals@[t],
                    *min,
                    *max,
                ) && r@[t].0.1 == palette_index(vals@[t], *min, *max) + 1 && r@[t].0.2
                    == palette_index(vals@[t], *min, *max) + 2 && r@[t].1.0 == palette_index(
                    vals@[t + 1],
                    *min,
                    *max,
                ) && r@[t].1.1 == palette_index(vals@[t + 1], *min, *max) + 1 && r@[t].1.2
                    == palette_index(vals@[t + 1], *min, *max) + 2,
        decreases vals@.len() - j,
    {
        let seg_start = get_rgb_for_value(&vals[j - 1], min, max);
        let seg_end = get_rgb_for_value(&vals[j], min, max);
        r.push((seg_start, seg_end));
        j += 1;
    }
    r
}

} // verus!
