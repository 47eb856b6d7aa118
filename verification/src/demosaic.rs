//! Bayer colour-filter geometry used by demosaicing.
//!
//! The interpolation filters themselves work on floating-point samples;
//! what is decided here is which colour each photosite records, which
//! neighbour a filter tap reads (edge pixels are replicated) and, at a
//! green photosite, in which direction the red samples lie.

use vstd::prelude::*;
use crate::raw::cfa_color;
use crate::raw::cfa_color_code;

verus! {

/// Colour recorded by a photosite.
#[derive(Debug, Clone, Copy, PartialEq, Eq, Structural)]
pub enum CfaColor {
    Red,
    Green,
    Blue,
}

/// The colour a CFA code names: 0 red, 1 green, 2 blue, anything else green.
pub open spec fn color_of_code(code: u8) -> CfaColor {
    if code == 0 {
        CfaColor::Red
    } else if code == 1 {
        CfaColor::Green
    } else if code == 2 {
        CfaColor::Blue
    } else {
        CfaColor::Green
    }
}

/// Index of a photosite within the 2x2 repeating pattern (row-major).
pub open spec fn pattern_index(row: int, col: int) -> int {
    (row % 2) * 2 + col % 2
}

/// Colour of photosite (`row`, `col`) under the 2x2 pattern `p`.
pub open spec fn color_at(p: Seq<u8>, row: int, col: int) -> CfaColor {
    color_of_code(p[pattern_index(row, col)])
}

/// Determines the colour at a CFA position.
pub fn cfa_color_at(cfa_pattern: &[u8; 4], row: usize, col: usize) -> (c: CfaColor)
    ensures
        c == color_at(cfa_pattern@, row as int, col as int),
{
    let r: usize = row % 2;
    let c: usize = col % 2;
    let idx: usize = r * 2 + c;
    match cfa_pattern[idx] {
        0 => CfaColor::Red,
        1 => CfaColor::Green,
        2 => CfaColor::Blue,
        _ => CfaColor::Green,
    }
}

/// The pattern repeats every two rows and every two columns.
pub proof fn lemma_cfa_color_periodic(p: Seq<u8>, row: nat, col: nat)
    requires
        p.len() == 4,
    ensures
        color_at(p, row + 2 as int, col as int) == color_at(p, row as int, col as int),
        color_at(p, row as int, col + 2 as int) == color_at(p, row as int, col as int),
{
}

/// Reads the 2x2 pattern at the origin of a `rawloader` colour filter
/// array as CFA codes (row-major).
pub fn parse_cfa_pattern(cfa: &rawloader::CFA) -> (p: [u8; 4])
    ensures
        p@[0] == cfa_color(*cfa, 0, 0) as u8,
        p@[1] == cfa_color(*cfa, 0, 1) as u8,
        p@[2] == cfa_color(*cfa, 1, 0) as u8,
        p@[3] == cfa_color(*cfa, 1, 1) as u8,
{
    let mut pattern: [u8; 4] = [1u8; 4];
    let mut row: usize = 0;
    while row < 2
        invariant
            row <= 2,
            forall|r: usize, c: usize|
                r < row && c < 2 ==> pattern@[r * 2 + c] == #[trigger] cfa_color(*cfa, r, c) as u8,
        decreases 2 - row,
    {
        let mut col: usize = 0;
        while col < 2
            invariant
                row < 2,
                col <= 2,
                forall|r: usize, c: usize|
                    r < row && c < 2 ==> pattern@[r * 2 + c] == #[trigger] cfa_color(*cfa, r, c)
                        as u8,
                forall|c: usize|
                    c < col ==> pattern@[row * 2 + c] == #[trigger] cfa_color(*cfa, row, c) as u8,
            decreases 2 - col,
        {
            let idx: usize = row * 2 + col;
            let color: usize = cfa_color_code(cfa, row, col);
            pattern[idx] = color as u8;
            col += 1;
        }
        row += 1;
    }
    assert(pattern@[0] == cfa_color(*cfa, 0, 0) as u8);
    assert(pattern@[1] == cfa_color(*cfa, 0, 1) as u8);
    assert(pattern@[2] == cfa_color(*cfa, 1, 0) as u8);
    assert(pattern@[3] == cfa_color(*cfa, 1, 1) as u8);
    pattern
}

// ---------------------------------------------------------------------------
// Filter taps
// ---------------------------------------------------------------------------

/// `v` clamped into `lo..=hi`.
pub open spec fn clamp_int(v: int, lo: int, hi: int) -> int {
    if v < lo {
        lo
    } else if v > hi {
        hi
    } else {
        v
    }
}

/// Index, in a row-major `width` x `height` plane, of the sample a filter
/// tap at (`row`, `col`) reads: coordinates outside the image are moved to
/// the nearest edge.
pub open spec fn tap_index(width: int, height: int, row: int, col: int) -> int {
    clamp_int(row, 0, height - 1) * width + clamp_int(col, 0, width - 1)
}

/// Index of the sample a filter tap at (`row`, `col`) reads, with edge
/// replication.  Always a valid index of a `width` x `height` plane.
pub fn pixel_index(width: usize, height: usize, row: isize, col: isize) -> (i: usize)
    requires
        0 < width <= isize::MAX,
        0 < height <= isize::MAX,
        width * height <= usize::MAX,
    ensures
        i == tap_index(width as int, height as int, row as int, col as int),
        i < width * height,
{
    let max_row: isize = height as isize - 1;
    let max_col: isize = width as isize - 1;
    let r: usize = if row < 0 {
        0
    } else if row > max_row {
        max_row as usize
    } else {
        row as usize
    };
    let c: usize = if col < 0 {
        0
    } else if col > max_col {
        max_col as usize
    } else {
        col as usize
    };
    assert(r * width + c < width * height) by (nonlinear_arith)
        requires
            r < height,
            c < width,
    ;
    r * width + c
}

/// At a green photosite, whether the red samples lie in the vertical
/// direction (and the blue ones in the horizontal one).  The decision looks
/// at the row above (below on the first row); when that row is green too it
/// looks at the column to the left (right on the first column).
pub open spec fn red_vertical_at(p: Seq<u8>, row: int, col: int) -> bool {
    let check_row = if row > 0 {
        row - 1
    } else {
        row + 1
    };
    match color_at(p, check_row, col) {
        CfaColor::Red => true,
        CfaColor::Blue => false,
        CfaColor::Green => {
            let check_col = if col > 0 {
                col - 1
            } else {
                col + 1
            };
            color_at(p, row, check_col) != CfaColor::Red
        },
    }
}

/// Whether, at the green photosite (`row`, `col`), red is interpolated
/// vertically and blue horizontally (`true`) or the other way round.
pub fn red_is_vertical_at_green(cfa_pattern: &[u8; 4], row: usize, col: usize) -> (v: bool)
    ensures
        v == red_vertical_at(cfa_pattern@, row as int, col as int),
{
    let check_row: usize = if row > 0 {
        row - 1
    } else {
        row + 1
    };
    match cfa_color_at(cfa_pattern, check_row, col) {
        CfaColor::Red => true,
        CfaColor::Blue => false,
        CfaColor::Green => {
            let check_col: usize = if col > 0 {
                col - 1
            } else {
                col + 1
            };
            match cfa_color_at(cfa_pattern, row, check_col) {
                CfaColor::Red => false,
                _ => true,
            }
        },
    }
}

/// A standard Bayer arrangement: two greens on one diagonal of the 2x2
/// block, one red and one blue on the other (RGGB, BGGR, GRBG, GBRG).
pub open spec fn is_bayer(p: Seq<u8>) -> bool {
    &&& p.len() == 4
    &&& {
        ||| (p[0] == 1 && p[3] == 1 && ((p[1] == 0 && p[2] == 2) || (p[1] == 2 && p[2] == 0)))
        ||| (p[1] == 1 && p[2] == 1 && ((p[0] == 0 && p[3] == 2) || (p[0] == 2 && p[3] == 0)))
    }
}

/// In a Bayer arrangement, at every green photosite red is interpolated
/// vertically exactly when the photosites above and below it are red.
pub proof fn lemma_green_site_direction(p: Seq<u8>, row: nat, col: nat)
    requires
        is_bayer(p),
        color_at(p, row as int, col as int) == CfaColor::Green,
    ensures
        red_vertical_at(p, row as int, col as int) <==> color_at(p, (row + 1) as int, col as int)
            == CfaColor::Red,
        row > 0 ==> color_at(p, row - 1, col as int) == color_at(p, (row + 1) as int, col as int),
{
}

/// Inside the image a filter tap reads the photosite itself; outside it
/// reads the nearest edge photosite of the same column or row.
pub proof fn lemma_tap_index(width: int, height: int, row: int, col: int)
    requires
        width > 0,
        height > 0,
    ensures
        0 <= row < height && 0 <= col < width ==> tap_index(width, height, row, col) == row
            * width + col,
        row < 0 ==> tap_index(width, height, row, col) == tap_index(width, height, 0, col),
        row >= height ==> tap_index(width, height, row, col) == tap_index(
            width,
            height,
            height - 1,
            col,
        ),
        col < 0 ==> tap_index(width, height, row, col) == tap_index(width, height, row, 0),
        col >= width ==> tap_index(width, height, row, col) == tap_index(
            width,
            height,
            row,
            width - 1,
        ),
{
}

} // verus!
