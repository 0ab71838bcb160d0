//! The colour mapper: escape results to 8-bit channel values.
//!
//! An escape at time `i` under budget `b` gets the cylindrical colour with
//! hue `360*i/b - 180` degrees and full saturation and value; "did not
//! escape" is black.  With saturation and value fixed at 1, the standard
//! hue-sector conversion gives exact rational channel values with
//! denominator `60*b`, so the whole mapper is integer arithmetic: each
//! channel is scaled by 255 and truncated toward zero.

use vstd::prelude::*;
use vstd::arithmetic::div_mod::{
    lemma_div_is_ordered, lemma_fundamental_div_mod_converse, lemma_multiply_divide_le,
    lemma_multiply_divide_lt,
};

verus! {

/// One pixel colour: 8-bit red, green and blue channel values.
#[derive(Clone, Copy, PartialEq, Eq, Structural, Debug)]
pub struct Rgb {
    pub r: u8,
    pub g: u8,
    pub b: u8,
}

/// The hue wrapped into [0, 360) degrees, times the budget `b`: the wrap of
/// `360*i/b - 180` stays integral when scaled by `b`.
pub open spec fn hue_times_b(i: int, b: int) -> int {
    (360 * i + 180 * b) % (360 * b)
}

/// Which sixth of the hue circle the wrapped hue falls in (0 to 5).
pub open spec fn hue_sector(i: int, b: int) -> int {
    hue_times_b(i, b) / (60 * b)
}

/// Position of the hue inside its sector, times `60*b` (in [0, 60*b)).
pub open spec fn hue_frac(i: int, b: int) -> int {
    hue_times_b(i, b) % (60 * b)
}

/// The rising middle channel of the sector: floor(255 * position).
pub open spec fn chan_up(i: int, b: int) -> int {
    255 * hue_frac(i, b) / (60 * b)
}

/// The falling middle channel of the sector: floor(255 * (1 - position)).
pub open spec fn chan_down(i: int, b: int) -> int {
    255 * (60 * b - hue_frac(i, b)) / (60 * b)
}

/// Colour of a pixel that escaped at time `i` of budget `b`: hue-sector
/// conversion of hue `360*i/b - 180` degrees at full saturation and value.
pub open spec fn escape_color(i: int, b: int) -> Rgb {
    let k = hue_sector(i, b);
    if k == 0 {
        Rgb { r: 255, g: chan_up(i, b) as u8, b: 0 }
    } else if k == 1 {
        Rgb { r: chan_down(i, b) as u8, g: 255, b: 0 }
    } else if k == 2 {
        Rgb { r: 0, g: 255, b: chan_up(i, b) as u8 }
    } else if k == 3 {
        Rgb { r: 0, g: chan_down(i, b) as u8, b: 255 }
    } else if k == 4 {
        Rgb { r: chan_up(i, b) as u8, g: 0, b: 255 }
    } else {
        Rgb { r: 255, g: 0, b: chan_down(i, b) as u8 }
    }
}

/// Colour of an escape result: black for "did not escape".
pub open spec fn result_color(e: Option<int>, b: int) -> Rgb {
    match e {
        None => Rgb { r: 0, g: 0, b: 0 },
        Some(i) => escape_color(i, b),
    }
}

/// View of an executable escape result as a mathematical one.
pub open spec fn escape_view(e: Option<usize>) -> Option<int> {
    match e {
        None => None,
        Some(i) => Some(i as int),
    }
}

/// "Did not escape" always maps to black, whatever the budget.
pub proof fn lemma_no_escape_black(b: int)
    ensures
        result_color(None, b) == (Rgb { r: 0, g: 0, b: 0 }),
{
}

/// The wrap of the hue: scaled by the budget, the hue 360*i/b - 180 wraps
/// to 360*i/b + 180 below the half turn and to 360*i/b - 180 above it.
pub proof fn lemma_hue_wrap(i: int, b: int)
    requires
        1 <= b,
        0 <= i < b,
    ensures
        hue_times_b(i, b) == if 2 * i < b {
            360 * i + 180 * b
        } else {
            360 * i - 180 * b
        },
{
    if 2 * i < b {
        lemma_fundamental_div_mod_converse(360 * i + 180 * b, 360 * b, 0, 360 * i + 180 * b);
    } else {
        lemma_fundamental_div_mod_converse(360 * i + 180 * b, 360 * b, 1, 360 * i - 180 * b);
    }
}

/// An escape at time 0 sits at hue -180 degrees exactly — the cyan corner
/// of the hue circle, colour (0, 255, 255).
pub proof fn lemma_escape_color_start(b: int)
    requires
        1 <= b,
    ensures
        escape_color(0, b) == (Rgb { r: 0, g: 255, b: 255 }),
{
    lemma_fundamental_div_mod_converse(180 * b, 360 * b, 0, 180 * b);
    lemma_fundamental_div_mod_converse(180 * b, 60 * b, 3, 0);
    lemma_fundamental_div_mod_converse(255 * (60 * b), 60 * b, 255, 0);
}

/// As i approaches the budget, the hue approaches +180 degrees from below
/// (and never reaches it): scaled by b, it stays in [-180*b, 180*b).
pub proof fn lemma_hue_sweep(i: int, b: int)
    requires
        1 <= b,
        0 <= i < b,
    ensures
        -180 * b <= 360 * i - 180 * b < 180 * b,
{
}

/// Escaping pixels keep full saturation and value: whatever the sector,
/// one channel of the colour is fully on.
pub proof fn lemma_escape_full_channel(i: int, b: int)
    requires
        1 <= b,
    ensures
        escape_color(i, b).r == 255 || escape_color(i, b).g == 255 || escape_color(i, b).b
            == 255,
{
}

/// The Colour Mapper: convert an escape result under the given iteration
/// budget to its pixel colour.
pub fn map_color(e: Option<usize>, budget: usize) -> (c: Rgb)
    requires
        1 <= budget,
        e matches Some(i) ==> i < budget,
    ensures
        c == result_color(escape_view(e), budget as int),
{
    match e {
        None => Rgb { r: 0, g: 0, b: 0 },
        Some(i) => {
            let ii = i as u128;
            let bb = budget as u128;
            let t: u128 = (360 * ii + 180 * bb) % (360 * bb);
            let sector: u128 = t / (60 * bb);
            let frac: u128 = t % (60 * bb);
            proof {
                lemma_multiply_divide_lt(t as int, 60 * (bb as int), 6);
                lemma_multiply_divide_lt(255 * (frac as int), 60 * (bb as int), 255);
                lemma_multiply_divide_le(
                    255 * (60 * (bb as int) - frac as int),
                    60 * (bb as int),
                    255,
                );
                lemma_div_is_ordered(0, 255 * (frac as int), 60 * (bb as int));
                lemma_div_is_ordered(0, 255 * (60 * (bb as int) - frac as int), 60 * (bb as int));
            }
            let up8: u8 = ((255 * frac) / (60 * bb)) as u8;
            let down8: u8 = ((255 * (60 * bb - frac)) / (60 * bb)) as u8;
            if sector == 0 {
                Rgb { r: 255, g: up8, b: 0 }
            } else if sector == 1 {
                Rgb { r: down8, g: 255, b: 0 }
            } else if sector == 2 {
                Rgb { r: 0, g: 255, b: up8 }
            } else if sector == 3 {
                Rgb { r: 0, g: down8, b: 255 }
            } else if sector == 4 {
                Rgb { r: up8, g: 0, b: 255 }
            } else {
                Rgb { r: 255, g: 0, b: down8 }
            }
        },
    }
}

} // verus!
