//! Choosing the width to draw at. Asking the terminal for its size is left to
//! the caller, who hands the answer in.

use vstd::prelude::*;

verus! {

pub const FALLBACK_WIDTH: usize = 80;

/// Auto-detected terminals get a card-sized panel rather than the full width —
/// a scene stretched across 200 columns is not a better scene. `--width` opts out.
pub const AUTO_MAX_WIDTH: usize = 52;

pub open spec fn clamp_width(w: int) -> int {
    if w < 20 {
        20
    } else if w > 200 {
        200
    } else {
        w
    }
}

/// The width to draw at: an explicit width clamped to 20..=200; otherwise
/// the detected terminal width (80 when there is none) capped at 52.
pub open spec fn resolve_width_spec(explicit: Option<usize>, detected: Option<usize>) -> int {
    match explicit {
        Some(w) => clamp_width(w as int),
        None => {
            let d = match detected {
                Some(w) => w as int,
                None => FALLBACK_WIDTH as int,
            };
            clamp_width(if d < AUTO_MAX_WIDTH { d } else { AUTO_MAX_WIDTH as int })
        },
    }
}

fn clamp(w: usize) -> (r: usize)
    ensures
        r == clamp_width(w as int),
{
    if w < 20 {
        20
    } else if w > 200 {
        200
    } else {
        w
    }
}

/// Resolve the width to draw at: an explicit flag is taken literally, otherwise
/// the terminal width capped to a comfortable card. `detected` is the
/// terminal's width when stdout is a terminal, else `None`.
pub fn resolve_width(explicit: Option<usize>, detected: Option<usize>) -> (w: usize)
    ensures
        w == resolve_width_spec(explicit, detected),
        20 <= w <= 200,
{
    match explicit {
        Some(width) => clamp(width),
        None => {
            let d = match detected {
                Some(w) => w,
                None => FALLBACK_WIDTH,
            };
            clamp(if d < AUTO_MAX_WIDTH { d } else { AUTO_MAX_WIDTH })
        },
    }
}

/// Without `--width` the output never exceeds the card width, and an
/// explicit width is honoured exactly whenever it lies in 20..=200.
pub proof fn auto_width_is_a_card(explicit: Option<usize>, detected: Option<usize>)
    ensures
        explicit is None ==> 20 <= resolve_width_spec(explicit, detected) <= AUTO_MAX_WIDTH,
        explicit is Some && 20 <= explicit->0 <= 200 ==> resolve_width_spec(explicit, detected)
            == explicit->0,
{
}

} // verus!
