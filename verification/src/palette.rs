//! The fixed chart palette: fifteen color tokens, assigned to entries by
//! position and repeated cyclically once the palette is exhausted.

use vstd::prelude::*;

verus! {

/// How many color tokens the palette holds.
pub const PALETTE_SIZE: usize = 15;

/// The color token for an entry position: the palette entry at the position
/// taken modulo the palette size.
pub open spec fn palette_color(i: int) -> Seq<char> {
    let k = i % 15;
    if k == 0 {
        "#FF6B6B"@
    } else if k == 1 {
        "#4ECDC4"@
    } else if k == 2 {
        "#45B7D1"@
    } else if k == 3 {
        "#96CEB4"@
    } else if k == 4 {
        "#FECA57"@
    } else if k == 5 {
        "#FF9FF3"@
    } else if k == 6 {
        "#54A0FF"@
    } else if k == 7 {
        "#5F27CD"@
    } else if k == 8 {
        "#00D2D3"@
    } else if k == 9 {
        "#FF9F43"@
    } else if k == 10 {
        "#EE5A24"@
    } else if k == 11 {
        "#0ABDE3"@
    } else if k == 12 {
        "#10AC84"@
    } else if k == 13 {
        "#F79F1F"@
    } else {
        "#A3CB38"@
    }
}

/// Picks the color token for an entry position.
pub fn color_at(i: usize) -> (c: &'static str)
    ensures
        c@ == palette_color(i as int),
{
    let k = i % PALETTE_SIZE;
    if k == 0 {
        "#FF6B6B"
    } else if k == 1 {
        "#4ECDC4"
    } else if k == 2 {
        "#45B7D1"
    } else if k == 3 {
        "#96CEB4"
    } else if k == 4 {
        "#FECA57"
    } else if k == 5 {
        "#FF9FF3"
    } else if k == 6 {
        "#54A0FF"
    } else if k == 7 {
        "#5F27CD"
    } else if k == 8 {
        "#00D2D3"
    } else if k == 9 {
        "#FF9F43"
    } else if k == 10 {
        "#EE5A24"
    } else if k == 11 {
        "#0ABDE3"
    } else if k == 12 {
        "#10AC84"
    } else if k == 13 {
        "#F79F1F"
    } else {
        "#A3CB38"
    }
}

} // verus!
