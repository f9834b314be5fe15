//! The function patterns of a QR symbol (finder, separator, alignment and
//! timing patterns, the format and version areas and the dark module),
//! drawn once per version into a module grid and a grid of reserved cells.

use vstd::prelude::*;

use crate::bits::{cell, grid_buffer, in_grid, lemma_cell_update, lsb_bits, set_bit};
use crate::version::Version;

verus! {

/// The modules and reserved cells of the function patterns of one version.
#[derive(Debug, Clone, Copy, PartialEq, Eq)]
pub struct VersionMatrixTemplates<M> {
    /// The module values of the function patterns (other cells light).
    pub modules: M,
    /// The cells that belong to a function pattern.
    pub reserved: M,
}

/// The side length of the matrix of `version`.
pub open spec fn width_of(version: int) -> int {
    4 * version + 17
}

/// The module value a pattern gives a cell, or the previous value when the
/// pattern does not cover it.
pub open spec fn paint(area: Option<bool>, previous: bool) -> bool {
    match area {
        Some(value) => value,
        None => previous,
    }
}

/// Whether a cell is reserved after a pattern that may cover it.
pub open spec fn reserve(area: Option<bool>, previous: bool) -> bool {
    area is Some || previous
}

/// The 9x9 finder pattern with its separator, with its top-left module at
/// `(origin_x, origin_y)`: a dark 7x7 ring, a dark 3x3 center, light
/// elsewhere.
pub open spec fn finder_value(origin_x: int, origin_y: int, x: int, y: int) -> Option<bool> {
    let dx = x - origin_x;
    let dy = y - origin_y;
    if -1 <= dx <= 7 && -1 <= dy <= 7 {
        let on_pattern = 0 <= dx <= 6 && 0 <= dy <= 6;
        let inner_square = 2 <= dx <= 4 && 2 <= dy <= 4;
        Some(on_pattern && (dx == 0 || dx == 6 || dy == 0 || dy == 6 || inner_square))
    } else {
        None
    }
}

/// The timing patterns: row 6 and column 6 between the finders, dark on
/// even positions.
pub open spec fn timing_value(width: int, x: int, y: int) -> Option<bool> {
    if y == 6 && 8 <= x < width - 8 {
        Some(x % 2 == 0)
    } else if x == 6 && 8 <= y < width - 8 {
        Some(y % 2 == 0)
    } else {
        None
    }
}

/// The cells reserved for the two copies of the format information.
pub open spec fn format_area(width: int, x: int, y: int) -> bool {
    ||| x == 8 && 0 <= y <= 5
    ||| y == 8 && 0 <= x <= 5
    ||| x == 8 && y == 7
    ||| x == 8 && y == 8
    ||| x == 7 && y == 8
    ||| y == 8 && width - 8 <= x <= width - 1
    ||| x == 8 && width - 7 <= y <= width - 1
}

/// Number of alignment pattern coordinates of `version`.
pub open spec fn alignment_count(version: int) -> int {
    if version == 1 {
        0
    } else {
        version / 7 + 2
    }
}

/// Distance between alignment pattern coordinates after the first one.
pub open spec fn alignment_step(version: int) -> int {
    let count = alignment_count(version);
    if version == 32 {
        26
    } else {
        ((version * 4 + count * 2 + 1) / (count * 2 - 2)) * 2
    }
}

/// Alignment pattern coordinate `index`: 6 first, then evenly spaced up to
/// `width - 7`.
pub open spec fn alignment_position(version: int, index: int) -> int {
    if index == 0 {
        6
    } else {
        width_of(version) - 7 - (alignment_count(version) - 1 - index) * alignment_step(version)
    }
}

/// Whether the alignment pattern at coordinates `(x_index, y_index)` is
/// drawn: all but the three that would overlap a finder pattern.
pub open spec fn alignment_drawn(version: int, x_index: int, y_index: int) -> bool {
    let last = alignment_count(version) - 1;
    !((x_index == 0 && y_index == 0) || (x_index == 0 && y_index == last) || (x_index == last
        && y_index == 0))
}

/// The 5x5 alignment pattern centered on `(center_x, center_y)`: a dark
/// ring, a light ring and a dark center.
pub open spec fn alignment_pattern_value(center_x: int, center_y: int, x: int, y: int) -> Option<
    bool,
> {
    let dx = x - center_x;
    let dy = y - center_y;
    if -2 <= dx <= 2 && -2 <= dy <= 2 {
        Some(dx == 2 || dx == -2 || dy == 2 || dy == -2 || (dx == 0 && dy == 0))
    } else {
        None
    }
}

/// The cell values of the first `n` alignment patterns in drawing order
/// (rows of patterns top to bottom, left to right in a row), the last
/// drawn pattern that covers a cell giving its value.
pub open spec fn alignment_upto(version: int, n: int, x: int, y: int) -> Option<bool>
    decreases n,
{
    if n <= 0 {
        None
    } else {
        let count = alignment_count(version);
        let k = n - 1;
        let y_index = k / count;
        let x_index = k % count;
        let here = alignment_pattern_value(
            alignment_position(version, x_index),
            alignment_position(version, y_index),
            x,
            y,
        );
        if alignment_drawn(version, x_index, y_index) && here is Some {
            here
        } else {
            alignment_upto(version, n - 1, x, y)
        }
    }
}

/// The cell values of all alignment patterns of `version`.
pub open spec fn alignment_value(version: int, x: int, y: int) -> Option<bool> {
    alignment_upto(version, alignment_count(version) * alignment_count(version), x, y)
}

/// One step of the BCH(18, 6) remainder computation of the version information.
pub open spec fn version_step(r: u32) -> u32 {
    if (r >> 11u32) & 1 == 1 {
        (r << 1u32) ^ 0x1F25u32
    } else {
        r << 1u32
    }
}

/// `n` steps of the BCH remainder computation starting from `r`.
pub open spec fn version_remainder(r: u32, n: nat) -> u32
    decreases n,
{
    if n == 0 {
        r
    } else {
        version_step(version_remainder(r, (n - 1) as nat))
    }
}

/// The 18-bit version information word: the version number and its BCH remainder.
pub open spec fn version_word(version: int) -> u32 {
    ((version as u32) << 12u32) | version_remainder(version as u32, 12)
}

/// Bit `k` of a 32-bit word.
pub open spec fn u32_bit(v: u32, k: int) -> bool {
    (v >> (k as u32)) & 1u32 == 1u32
}

/// The two copies of the version information (versions 7 and up): a 6x3
/// block above the bottom-left finder and its transpose left of the
/// top-right finder.
pub open spec fn version_value(version: int, x: int, y: int) -> Option<bool> {
    let width = width_of(version);
    if version >= 7 && width - 11 <= x <= width - 9 && 0 <= y <= 5 {
        Some(u32_bit(version_word(version), 3 * y + (x - (width - 11))))
    } else if version >= 7 && width - 11 <= y <= width - 9 && 0 <= x <= 5 {
        Some(u32_bit(version_word(version), 3 * x + (y - (width - 11))))
    } else {
        None
    }
}

/// The function module of `version` at `(x, y)`, if the cell belongs to a
/// function pattern; later patterns take precedence over earlier ones in
/// the order finders, alignment, timing, format area, version area, dark
/// module.
pub open spec fn template_value(version: int, x: int, y: int) -> Option<bool> {
    let width = width_of(version);
    if x == 8 && y == width - 8 {
        Some(true)
    } else if version_value(version, x, y) is Some {
        version_value(version, x, y)
    } else if format_area(width, x, y) {
        Some(false)
    } else if timing_value(width, x, y) is Some {
        timing_value(width, x, y)
    } else if alignment_value(version, x, y) is Some {
        alignment_value(version, x, y)
    } else if finder_value(0, width - 7, x, y) is Some {
        finder_value(0, width - 7, x, y)
    } else if finder_value(width - 7, 0, x, y) is Some {
        finder_value(width - 7, 0, x, y)
    } else {
        finder_value(0, 0, x, y)
    }
}

/// The grids `(modules1, reserved1)` are `(modules0, reserved0)` with the
/// pattern `area` drawn over them.
pub open spec fn painted(
    modules0: Seq<u8>,
    reserved0: Seq<u8>,
    modules1: Seq<u8>,
    reserved1: Seq<u8>,
    width: int,
    area: spec_fn(int, int) -> Option<bool>,
) -> bool {
    &&& modules1.len() == modules0.len()
    &&& reserved1.len() == reserved0.len()
    &&& forall|x: int, y: int|
        in_grid(width, x, y) ==> #[trigger] cell(modules1, width, x, y) == paint(
            area(x, y),
            cell(modules0, width, x, y),
        )
    &&& forall|x: int, y: int|
        in_grid(width, x, y) ==> #[trigger] cell(reserved1, width, x, y) == reserve(
            area(x, y),
            cell(reserved0, width, x, y),
        )
}

/// Sets the module at `(x, y)`.
fn set_module(width: usize, modules: &mut Vec<u8>, x: usize, y: usize, is_black: bool)
    requires
        grid_buffer(old(modules)@, width as int),
        in_grid(width as int, x as int, y as int),
        width <= 177,
    ensures
        final(modules)@.len() == old(modules)@.len(),
        forall|x2: int, y2: int|
            in_grid(width as int, x2, y2) ==> #[trigger] cell(final(modules)@, width as int, x2, y2)
                == if x2 == x && y2 == y {
                is_black
            } else {
                cell(old(modules)@, width as int, x2, y2)
            },
{
    proof {
        crate::bits::lemma_cell_index(width as int, x as int, y as int, x as int, y as int);
        assert(width * width <= 177 * 177) by (nonlinear_arith)
            requires
                width <= 177,
        ;
        assert(y * width <= width * width) by (nonlinear_arith)
            requires
                y < width,
        ;
    }
    let ghost before = modules@;
    set_bit(modules, y * width + x, is_black);
    proof {
        lemma_cell_update(before, modules@, width as int, x as int, y as int, is_black);
    }
}

/// Sets the module at `(x, y)` and marks the cell reserved.
fn set_function_module(
    width: usize,
    modules: &mut Vec<u8>,
    reserved: &mut Vec<u8>,
    x: usize,
    y: usize,
    is_black: bool,
)
    requires
        grid_buffer(old(modules)@, width as int),
        grid_buffer(old(reserved)@, width as int),
        in_grid(width as int, x as int, y as int),
        width <= 177,
    ensures
        final(modules)@.len() == old(modules)@.len(),
        final(reserved)@.len() == old(reserved)@.len(),
        forall|x2: int, y2: int|
            in_grid(width as int, x2, y2) ==> #[trigger] cell(final(modules)@, width as int, x2, y2)
                == if x2 == x && y2 == y {
                is_black
            } else {
                cell(old(modules)@, width as int, x2, y2)
            },
        forall|x2: int, y2: int|
            in_grid(width as int, x2, y2) ==> #[trigger] cell(final(reserved)@, width as int, x2, y2)
                == if x2 == x && y2 == y {
                true
            } else {
                cell(old(reserved)@, width as int, x2, y2)
            },
{
    set_module(width, modules, x, y, is_black);
    set_module(width, reserved, x, y, true);
}

/// The part of a finder pattern drawn before row offset `dy`, column offset `dx`.
pub open spec fn finder_upto(origin_x: int, origin_y: int, dy: int, dx: int, x: int, y: int) -> Option<bool> {
    if y - origin_y < dy || (y - origin_y == dy && x - origin_x < dx) {
        finder_value(origin_x, origin_y, x, y)
    } else {
        None
    }
}

/// Draws a finder pattern with its separator, clipped to the grid, with its
/// top-left module at `(origin_x, origin_y)`.
fn draw_finder_pattern(
    width: usize,
    modules: &mut Vec<u8>,
    reserved: &mut Vec<u8>,
    origin_x: usize,
    origin_y: usize,
)
    requires
        grid_buffer(old(modules)@, width as int),
        grid_buffer(old(reserved)@, width as int),
        width <= 177,
        origin_x <= width,
        origin_y <= width,
    ensures
        painted(
            old(modules)@,
            old(reserved)@,
            final(modules)@,
            final(reserved)@,
            width as int,
            |x: int, y: int| finder_value(origin_x as int, origin_y as int, x, y),
        ),
{
    let ghost m0 = modules@;
    let ghost r0 = reserved@;
    let ghost ox = origin_x as int;
    let ghost oy = origin_y as int;
    let ghost w = width as int;
    let mut dy: isize = -1;
    while dy <= 7
        invariant
            -1 <= dy <= 8,
            w == width as int,
            ox == origin_x as int,
            oy == origin_y as int,
            width <= 177,
            origin_x <= width,
            origin_y <= width,
            grid_buffer(m0, w),
            grid_buffer(r0, w),
            modules@.len() == m0.len(),
            reserved@.len() == r0.len(),
            forall|x: int, y: int| in_grid(w, x, y) ==> #[trigger] cell(modules@, w, x, y) == paint(finder_upto(ox, oy, dy as int, -1, x, y), cell(m0, w, x, y)),
            forall|x: int, y: int| in_grid(w, x, y) ==> #[trigger] cell(reserved@, w, x, y) == reserve(finder_upto(ox, oy, dy as int, -1, x, y), cell(r0, w, x, y)),
        decreases 8 - dy,
    {
        let mut dx: isize = -1;
        while dx <= 7
            invariant
                -1 <= dy <= 7,
                -1 <= dx <= 8,
                w == width as int,
                ox == origin_x as int,
                oy == origin_y as int,
                width <= 177,
                origin_x <= width,
                origin_y <= width,
                grid_buffer(m0, w),
                grid_buffer(r0, w),
                modules@.len() == m0.len(),
                reserved@.len() == r0.len(),
                forall|x: int, y: int| in_grid(w, x, y) ==> #[trigger] cell(modules@, w, x, y) == paint(finder_upto(ox, oy, dy as int, dx as int, x, y), cell(m0, w, x, y)),
                forall|x: int, y: int| in_grid(w, x, y) ==> #[trigger] cell(reserved@, w, x, y) == reserve(finder_upto(ox, oy, dy as int, dx as int, x, y), cell(r0, w, x, y)),
            decreases 8 - dx,
        {
            let xx = origin_x as isize + dx;
            let yy = origin_y as isize + dy;
            let ghost before_m = modules@;
            let ghost before_r = reserved@;
            if xx >= 0 && yy >= 0 && xx < width as isize && yy < width as isize {
                let on_pattern = dx >= 0 && dx <= 6 && dy >= 0 && dy <= 6;
                let inner_square = dx >= 2 && dx <= 4 && dy >= 2 && dy <= 4;
                let is_black = on_pattern && (dx == 0 || dx == 6 || dy == 0 || dy == 6
                    || inner_square);
                set_function_module(width, modules, reserved, xx as usize, yy as usize, is_black);
            }
            dx = dx + 1;
            proof {
                assert forall|x: int, y: int| in_grid(w, x, y) implies #[trigger] cell(modules@, w, x, y) == paint(
                    finder_upto(ox, oy, dy as int, dx as int, x, y),
                    cell(m0, w, x, y),
                ) by {
                    assert(cell(before_m, w, x, y) == paint(finder_upto(ox, oy, dy as int, dx - 1, x, y), cell(m0, w, x, y)));
                }
                assert forall|x: int, y: int| in_grid(w, x, y) implies #[trigger] cell(reserved@, w, x, y) == reserve(
                    finder_upto(ox, oy, dy as int, dx as int, x, y),
                    cell(r0, w, x, y),
                ) by {
                    assert(cell(before_r, w, x, y) == reserve(finder_upto(ox, oy, dy as int, dx - 1, x, y), cell(r0, w, x, y)));
                }
            }
        }
        dy = dy + 1;
        proof {
            assert forall|x: int, y: int| in_grid(w, x, y) implies finder_upto(ox, oy, dy - 1, 8, x, y) == finder_upto(ox, oy, dy as int, -1, x, y) by {}
        }
    }
    proof {
        assert forall|x: int, y: int| in_grid(w, x, y) implies finder_upto(ox, oy, 8, -1, x, y) == finder_value(ox, oy, x, y) by {}
    }
}

/// The part of the timing patterns drawn before position `index`.
pub open spec fn timing_upto(index: int, x: int, y: int) -> Option<bool> {
    if y == 6 && 8 <= x < index {
        Some(x % 2 == 0)
    } else if x == 6 && 8 <= y < index {
        Some(y % 2 == 0)
    } else {
        None
    }
}

/// Draws the horizontal and vertical timing patterns.
fn draw_timing_patterns(width: usize, modules: &mut Vec<u8>, reserved: &mut Vec<u8>)
    requires
        grid_buffer(old(modules)@, width as int),
        grid_buffer(old(reserved)@, width as int),
        21 <= width <= 177,
    ensures
        painted(
            old(modules)@,
            old(reserved)@,
            final(modules)@,
            final(reserved)@,
            width as int,
            |x: int, y: int| timing_value(width as int, x, y),
        ),
{
    let ghost m0 = modules@;
    let ghost r0 = reserved@;
    let ghost w = width as int;
    let mut index: usize = 8;
    while index < width - 8
        invariant
            8 <= index <= width - 8,
            w == width as int,
            21 <= width <= 177,
            grid_buffer(m0, w),
            grid_buffer(r0, w),
            modules@.len() == m0.len(),
            reserved@.len() == r0.len(),
            forall|x: int, y: int| in_grid(w, x, y) ==> #[trigger] cell(modules@, w, x, y) == paint(timing_upto(index as int, x, y), cell(m0, w, x, y)),
            forall|x: int, y: int| in_grid(w, x, y) ==> #[trigger] cell(reserved@, w, x, y) == reserve(timing_upto(index as int, x, y), cell(r0, w, x, y)),
        decreases width - index,
    {
        let is_black = index % 2 == 0;
        let ghost m1 = modules@;
        let ghost r1 = reserved@;
        set_function_module(width, modules, reserved, index, 6, is_black);
        let ghost m2 = modules@;
        let ghost r2 = reserved@;
        set_function_module(width, modules, reserved, 6, index, is_black);
        index = index + 1;
        proof {
            assert forall|x: int, y: int| in_grid(w, x, y) implies #[trigger] cell(modules@, w, x, y) == paint(
                timing_upto(index as int, x, y),
                cell(m0, w, x, y),
            ) by {
                assert(cell(m1, w, x, y) == paint(timing_upto(index - 1, x, y), cell(m0, w, x, y)));
                assert(cell(m2, w, x, y) == cell(m2, w, x, y));
            }
            assert forall|x: int, y: int| in_grid(w, x, y) implies #[trigger] cell(reserved@, w, x, y) == reserve(
                timing_upto(index as int, x, y),
                cell(r0, w, x, y),
            ) by {
                assert(cell(r1, w, x, y) == reserve(timing_upto(index - 1, x, y), cell(r0, w, x, y)));
                assert(cell(r2, w, x, y) == cell(r2, w, x, y));
            }
        }
    }
    proof {
        assert forall|x: int, y: int| in_grid(w, x, y) implies timing_upto(w - 8, x, y) == timing_value(w, x, y) by {}
    }
}

/// Format-area cells reserved by the first loops of `reserve_format_areas`.
pub open spec fn format_upto(width: int, stage: int, index: int, x: int, y: int) -> Option<bool> {
    let near = (x == 8 && 0 <= y < (if stage == 0 { index } else { 6 })) || (y == 8 && 0 <= x < (
    if stage == 0 {
        index
    } else {
        6
    }));
    let corner = stage >= 1 && ((x == 8 && y == 7) || (x == 8 && y == 8) || (x == 7 && y == 8));
    let right = stage >= 2 && y == 8 && width - (if stage == 2 { index } else { 8 }) <= x <= width
        - 1;
    let bottom = stage >= 3 && x == 8 && width - (if stage == 3 { index } else { 7 }) <= y <= width
        - 1;
    if near || corner || right || bottom {
        Some(false)
    } else {
        None
    }
}

/// Reserves the cells of both copies of the format information.
fn reserve_format_areas(width: usize, modules: &mut Vec<u8>, reserved: &mut Vec<u8>)
    requires
        grid_buffer(old(modules)@, width as int),
        grid_buffer(old(reserved)@, width as int),
        21 <= width <= 177,
    ensures
        painted(
            old(modules)@,
            old(reserved)@,
            final(modules)@,
            final(reserved)@,
            width as int,
            |x: int, y: int| if format_area(width as int, x, y) {
                Some(false)
            } else {
                None
            },
        ),
{
    let ghost m0 = modules@;
    let ghost r0 = reserved@;
    let ghost w = width as int;
    let mut index: usize = 0;
    while index <= 5
        invariant
            index <= 6,
            w == width as int,
            21 <= width <= 177,
            grid_buffer(m0, w),
            grid_buffer(r0, w),
            modules@.len() == m0.len(),
            reserved@.len() == r0.len(),
            forall|x: int, y: int| in_grid(w, x, y) ==> #[trigger] cell(modules@, w, x, y) == paint(format_upto(w, 0, index as int, x, y), cell(m0, w, x, y)),
            forall|x: int, y: int| in_grid(w, x, y) ==> #[trigger] cell(reserved@, w, x, y) == reserve(format_upto(w, 0, index as int, x, y), cell(r0, w, x, y)),
        decreases 6 - index,
    {
        let ghost m1 = modules@;
        let ghost r1 = reserved@;
        set_function_module(width, modules, reserved, 8, index, false);
        let ghost m2 = modules@;
        let ghost r2 = reserved@;
        set_function_module(width, modules, reserved, index, 8, false);
        index = index + 1;
        proof {
            assert forall|x: int, y: int| in_grid(w, x, y) implies #[trigger] cell(modules@, w, x, y) == paint(
                format_upto(w, 0, index as int, x, y),
                cell(m0, w, x, y),
            ) by {
                assert(cell(m1, w, x, y) == paint(format_upto(w, 0, index - 1, x, y), cell(m0, w, x, y)));
                assert(cell(m2, w, x, y) == cell(m2, w, x, y));
            }
            assert forall|x: int, y: int| in_grid(w, x, y) implies #[trigger] cell(reserved@, w, x, y) == reserve(
                format_upto(w, 0, index as int, x, y),
                cell(r0, w, x, y),
            ) by {
                assert(cell(r1, w, x, y) == reserve(format_upto(w, 0, index - 1, x, y), cell(r0, w, x, y)));
                assert(cell(r2, w, x, y) == cell(r2, w, x, y));
            }
        }
    }
    let ghost m1 = modules@;
    let ghost r1 = reserved@;
    set_function_module(width, modules, reserved, 8, 7, false);
    let ghost m2 = modules@;
    let ghost r2 = reserved@;
    set_function_module(width, modules, reserved, 8, 8, false);
    let ghost m3 = modules@;
    let ghost r3 = reserved@;
    set_function_module(width, modules, reserved, 7, 8, false);
    proof {
        assert forall|x: int, y: int| in_grid(w, x, y) implies #[trigger] cell(modules@, w, x, y) == paint(
            format_upto(w, 1, 0, x, y),
            cell(m0, w, x, y),
        ) by {
            assert(cell(m1, w, x, y) == paint(format_upto(w, 0, 6, x, y), cell(m0, w, x, y)));
            assert(cell(m2, w, x, y) == cell(m2, w, x, y));
            assert(cell(m3, w, x, y) == cell(m3, w, x, y));
        }
        assert forall|x: int, y: int| in_grid(w, x, y) implies #[trigger] cell(reserved@, w, x, y) == reserve(
            format_upto(w, 1, 0, x, y),
            cell(r0, w, x, y),
        ) by {
            assert(cell(r1, w, x, y) == reserve(format_upto(w, 0, 6, x, y), cell(r0, w, x, y)));
            assert(cell(r2, w, x, y) == cell(r2, w, x, y));
            assert(cell(r3, w, x, y) == cell(r3, w, x, y));
        }
    }
    index = 0;
    while index <= 7
        invariant
            index <= 8,
            w == width as int,
            21 <= width <= 177,
            grid_buffer(m0, w),
            grid_buffer(r0, w),
            modules@.len() == m0.len(),
            reserved@.len() == r0.len(),
            forall|x: int, y: int| in_grid(w, x, y) ==> #[trigger] cell(modules@, w, x, y) == paint(format_upto(w, 2, index as int, x, y), cell(m0, w, x, y)),
            forall|x: int, y: int| in_grid(w, x, y) ==> #[trigger] cell(reserved@, w, x, y) == reserve(format_upto(w, 2, index as int, x, y), cell(r0, w, x, y)),
        decreases 8 - index,
    {
        let ghost m1 = modules@;
        let ghost r1 = reserved@;
        set_function_module(width, modules, reserved, width - 1 - index, 8, false);
        index = index + 1;
        proof {
            assert forall|x: int, y: int| in_grid(w, x, y) implies #[trigger] cell(modules@, w, x, y) == paint(
                format_upto(w, 2, index as int, x, y),
                cell(m0, w, x, y),
            ) by {
                assert(cell(m1, w, x, y) == paint(format_upto(w, 2, index - 1, x, y), cell(m0, w, x, y)));

            }
            assert forall|x: int, y: int| in_grid(w, x, y) implies #[trigger] cell(reserved@, w, x, y) == reserve(
                format_upto(w, 2, index as int, x, y),
                cell(r0, w, x, y),
            ) by {
                assert(cell(r1, w, x, y) == reserve(format_upto(w, 2, index - 1, x, y), cell(r0, w, x, y)));

            }
        }
    }
    index = 0;
    while index <= 6
        invariant
            index <= 7,
            w == width as int,
            21 <= width <= 177,
            grid_buffer(m0, w),
            grid_buffer(r0, w),
            modules@.len() == m0.len(),
            reserved@.len() == r0.len(),
            forall|x: int, y: int| in_grid(w, x, y) ==> #[trigger] cell(modules@, w, x, y) == paint(format_upto(w, 3, index as int, x, y), cell(m0, w, x, y)),
            forall|x: int, y: int| in_grid(w, x, y) ==> #[trigger] cell(reserved@, w, x, y) == reserve(format_upto(w, 3, index as int, x, y), cell(r0, w, x, y)),
        decreases 7 - index,
    {
        let ghost m1 = modules@;
        let ghost r1 = reserved@;
        set_function_module(width, modules, reserved, 8, width - 1 - index, false);
        index = index + 1;
        proof {
            assert forall|x: int, y: int| in_grid(w, x, y) implies #[trigger] cell(modules@, w, x, y) == paint(
                format_upto(w, 3, index as int, x, y),
                cell(m0, w, x, y),
            ) by {
                assert(cell(m1, w, x, y) == paint(format_upto(w, 3, index - 1, x, y), cell(m0, w, x, y)));

            }
            assert forall|x: int, y: int| in_grid(w, x, y) implies #[trigger] cell(reserved@, w, x, y) == reserve(
                format_upto(w, 3, index as int, x, y),
                cell(r0, w, x, y),
            ) by {
                assert(cell(r1, w, x, y) == reserve(format_upto(w, 3, index - 1, x, y), cell(r0, w, x, y)));

            }
        }
    }
    proof {
        assert forall|x: int, y: int| in_grid(w, x, y) implies format_upto(w, 3, 7, x, y) == (if format_area(w, x, y) {
            Some(false)
        } else {
            None
        }) by {}
    }
}

/// Returns the 18-bit version information word of `version`.
pub fn version_bits(version: usize) -> (r: u32)
    requires
        version <= 40,
    ensures
        r == version_word(version as int),
{
    let mut remainder = version as u32;
    let mut index: usize = 0;
    while index < 12
        invariant
            index <= 12,
            version <= 40,
            remainder == version_remainder(version as u32, index as nat),
        decreases 12 - index,
    {
        let high: u32 = (remainder >> 11) & 1;
        assert(high <= 1) by (bit_vector)
            requires
                high == (remainder >> 11u32) & 1u32,
        ;
        let next = (remainder << 1) ^ (high * 0x1F25);
        assert(next == version_step(remainder)) by (bit_vector)
            requires
                high == (remainder >> 11u32) & 1u32,
                next == (remainder << 1u32) ^ (high * 0x1F25u32) as u32,
        ;
        remainder = next;
        index = index + 1;
    }
    ((version as u32) << 12) | remainder
}

/// The version-information cells drawn before bit `index`.
pub open spec fn version_upto(version: int, index: int, x: int, y: int) -> Option<bool> {
    let width = width_of(version);
    if width - 11 <= x <= width - 9 && 0 <= y <= 5 && 3 * y + (x - (width - 11)) < index {
        Some(u32_bit(version_word(version), 3 * y + (x - (width - 11))))
    } else if width - 11 <= y <= width - 9 && 0 <= x <= 5 && 3 * x + (y - (width - 11)) < index {
        Some(u32_bit(version_word(version), 3 * x + (y - (width - 11))))
    } else {
        None
    }
}

/// Draws both copies of the version information (versions 7 and up).
fn draw_version_info(version: usize, width: usize, modules: &mut Vec<u8>, reserved: &mut Vec<u8>)
    requires
        grid_buffer(old(modules)@, width as int),
        grid_buffer(old(reserved)@, width as int),
        1 <= version <= 40,
        width == width_of(version as int),
    ensures
        painted(
            old(modules)@,
            old(reserved)@,
            final(modules)@,
            final(reserved)@,
            width as int,
            |x: int, y: int| version_value(version as int, x, y),
        ),
{
    let ghost m0 = modules@;
    let ghost r0 = reserved@;
    let ghost w = width as int;
    if version < 7 {
        return;
    }
    let bits = version_bits(version);
    let mut index: usize = 0;
    while index < 18
        invariant
            index <= 18,
            7 <= version <= 40,
            width == width_of(version as int),
            bits == version_word(version as int),
            w == width as int,
            21 <= width <= 177,
            grid_buffer(m0, w),
            grid_buffer(r0, w),
            modules@.len() == m0.len(),
            reserved@.len() == r0.len(),
            forall|x: int, y: int| in_grid(w, x, y) ==> #[trigger] cell(modules@, w, x, y) == paint(version_upto(version as int, index as int, x, y), cell(m0, w, x, y)),
            forall|x: int, y: int| in_grid(w, x, y) ==> #[trigger] cell(reserved@, w, x, y) == reserve(version_upto(version as int, index as int, x, y), cell(r0, w, x, y)),
        decreases 18 - index,
    {
        let shift = index as u32;
        let low = (bits >> shift) & 1;
        let bit = low != 0;
        assert(bit == ((bits >> shift) & 1u32 == 1u32)) by (bit_vector)
            requires
                low == (bits >> shift) & 1u32,
                bit == (low != 0u32),
        ;
        assert(bit == u32_bit(bits, index as int));
        let x = width - 11 + (index % 3);
        let y = index / 3;
        let ghost m1 = modules@;
        let ghost r1 = reserved@;
        set_function_module(width, modules, reserved, x, y, bit);
        let ghost m2 = modules@;
        let ghost r2 = reserved@;
        set_function_module(width, modules, reserved, y, x, bit);
        index = index + 1;
        proof {
            assert forall|x: int, y: int| in_grid(w, x, y) implies #[trigger] cell(modules@, w, x, y) == paint(
                version_upto(version as int, index as int, x, y),
                cell(m0, w, x, y),
            ) by {
                assert(cell(m1, w, x, y) == paint(version_upto(version as int, index - 1, x, y), cell(m0, w, x, y)));
                assert(cell(m2, w, x, y) == cell(m2, w, x, y));
            }
            assert forall|x: int, y: int| in_grid(w, x, y) implies #[trigger] cell(reserved@, w, x, y) == reserve(
                version_upto(version as int, index as int, x, y),
                cell(r0, w, x, y),
            ) by {
                assert(cell(r1, w, x, y) == reserve(version_upto(version as int, index - 1, x, y), cell(r0, w, x, y)));
                assert(cell(r2, w, x, y) == cell(r2, w, x, y));
            }
        }
    }
    proof {
        assert forall|x: int, y: int| in_grid(w, x, y) implies version_upto(version as int, 18, x, y) == version_value(version as int, x, y) by {}
    }
}

/// What the alignment coordinates of a version satisfy: at most seven of
/// them, and each leaves room for a 5x5 pattern clear of the edges.
pub open spec fn alignment_facts(version: int) -> bool {
    let count = alignment_count(version);
    &&& 0 <= count <= 7
    &&& version >= 2 ==> count >= 2 && alignment_step(version) > 0
    &&& forall|i: int|
        0 <= i < count ==> 6 <= #[trigger] alignment_position(version, i) <= width_of(version) - 7
}

/// The alignment coordinates of every version satisfy `alignment_facts`.
pub proof fn lemma_alignment_facts(version: int)
    requires
        1 <= version <= 40,
    ensures
        alignment_facts(version),
{
    if version == 1 {
        assert(alignment_facts(1));
    } else if version == 2 {
        assert(alignment_count(2) == 2);
        assert(alignment_step(2) == 12) by {
            assert(13int / 2int == 6int) by (nonlinear_arith);
        }
        assert(alignment_facts(2));
    } else if version == 3 {
        assert(alignment_count(3) == 2);
        assert(alignment_step(3) == 16) by {
            assert(17int / 2int == 8int) by (nonlinear_arith);
        }
        assert(alignment_facts(3));
    } else if version == 4 {
        assert(alignment_count(4) == 2);
        assert(alignment_step(4) == 20) by {
            assert(21int / 2int == 10int) by (nonlinear_arith);
        }
        assert(alignment_facts(4));
    } else if version == 5 {
        assert(alignment_count(5) == 2);
        assert(alignment_step(5) == 24) by {
            assert(25int / 2int == 12int) by (nonlinear_arith);
        }
        assert(alignment_facts(5));
    } else if version == 6 {
        assert(alignment_count(6) == 2);
        assert(alignment_step(6) == 28) by {
            assert(29int / 2int == 14int) by (nonlinear_arith);
        }
        assert(alignment_facts(6));
    } else if version == 7 {
        assert(alignment_count(7) == 3);
        assert(alignment_step(7) == 16) by {
            assert(35int / 4int == 8int) by (nonlinear_arith);
        }
        assert(alignment_facts(7));
    } else if version == 8 {
        assert(alignment_count(8) == 3);
        assert(alignment_step(8) == 18) by {
            assert(39int / 4int == 9int) by (nonlinear_arith);
        }
        assert(alignment_facts(8));
    } else if version == 9 {
        assert(alignment_count(9) == 3);
        assert(alignment_step(9) == 20) by {
            assert(43int / 4int == 10int) by (nonlinear_arith);
        }
        assert(alignment_facts(9));
    } else if version == 10 {
        assert(alignment_count(10) == 3);
        assert(alignment_step(10) == 22) by {
            assert(47int / 4int == 11int) by (nonlinear_arith);
        }
        assert(alignment_facts(10));
    } else if version == 11 {
        assert(alignment_count(11) == 3);
        assert(alignment_step(11) == 24) by {
            assert(51int / 4int == 12int) by (nonlinear_arith);
        }
        assert(alignment_facts(11));
    } else if version == 12 {
        assert(alignment_count(12) == 3);
        assert(alignment_step(12) == 26) by {
            assert(55int / 4int == 13int) by (nonlinear_arith);
        }
        assert(alignment_facts(12));
    } else if version == 13 {
        assert(alignment_count(13) == 3);
        assert(alignment_step(13) == 28) by {
            assert(59int / 4int == 14int) by (nonlinear_arith);
        }
        assert(alignment_facts(13));
    } else if version == 14 {
        assert(alignment_count(14) == 4);
        assert(alignment_step(14) == 20) by {
            assert(65int / 6int == 10int) by (nonlinear_arith);
        }
        assert(alignment_facts(14));
    } else if version == 15 {
        assert(alignment_count(15) == 4);
        assert(alignment_step(15) == 22) by {
            assert(69int / 6int == 11int) by (nonlinear_arith);
        }
        assert(alignment_facts(15));
    } else if version == 16 {
        assert(alignment_count(16) == 4);
        assert(alignment_step(16) == 24) by {
            assert(73int / 6int == 12int) by (nonlinear_arith);
        }
        assert(alignment_facts(16));
    } else if version == 17 {
        assert(alignment_count(17) == 4);
        assert(alignment_step(17) == 24) by {
            assert(77int / 6int == 12int) by (nonlinear_arith);
        }
        assert(alignment_facts(17));
    } else if version == 18 {
        assert(alignment_count(18) == 4);
        assert(alignment_step(18) == 26) by {
            assert(81int / 6int == 13int) by (nonlinear_arith);
        }
        assert(alignment_facts(18));
    } else if version == 19 {
        assert(alignment_count(19) == 4);
        assert(alignment_step(19) == 28) by {
            assert(85int / 6int == 14int) by (nonlinear_arith);
        }
        assert(alignment_facts(19));
    } else if version == 20 {
        assert(alignment_count(20) == 4);
        assert(alignment_step(20) == 28) by {
            assert(89int / 6int == 14int) by (nonlinear_arith);
        }
        assert(alignment_facts(20));
    } else if version == 21 {
        assert(alignment_count(21) == 5);
        assert(alignment_step(21) == 22) by {
            assert(95int / 8int == 11int) by (nonlinear_arith);
        }
        assert(alignment_facts(21));
    } else if version == 22 {
        assert(alignment_count(22) == 5);
        assert(alignment_step(22) == 24) by {
            assert(99int / 8int == 12int) by (nonlinear_arith);
        }
        assert(alignment_facts(22));
    } else if version == 23 {
        assert(alignment_count(23) == 5);
        assert(alignment_step(23) == 24) by {
            assert(103int / 8int == 12int) by (nonlinear_arith);
        }
        assert(alignment_facts(23));
    } else if version == 24 {
        assert(alignment_count(24) == 5);
        assert(alignment_step(24) == 26) by {
            assert(107int / 8int == 13int) by (nonlinear_arith);
        }
        assert(alignment_facts(24));
    } else if version == 25 {
        assert(alignment_count(25) == 5);
        assert(alignment_step(25) == 26) by {
            assert(111int / 8int == 13int) by (nonlinear_arith);
        }
        assert(alignment_facts(25));
    } else if version == 26 {
        assert(alignment_count(26) == 5);
        assert(alignment_step(26) == 28) by {
            assert(115int / 8int == 14int) by (nonlinear_arith);
        }
        assert(alignment_facts(26));
    } else if version == 27 {
        assert(alignment_count(27) == 5);
        assert(alignment_step(27) == 28) by {
            assert(119int / 8int == 14int) by (nonlinear_arith);
        }
        assert(alignment_facts(27));
    } else if version == 28 {
        assert(alignment_count(28) == 6);
        assert(alignment_step(28) == 24) by {
            assert(125int / 10int == 12int) by (nonlinear_arith);
        }
        assert(alignment_facts(28));
    } else if version == 29 {
        assert(alignment_count(29) == 6);
        assert(alignment_step(29) == 24) by {
            assert(129int / 10int == 12int) by (nonlinear_arith);
        }
        assert(alignment_facts(29));
    } else if version == 30 {
        assert(alignment_count(30) == 6);
        assert(alignment_step(30) == 26) by {
            assert(133int / 10int == 13int) by (nonlinear_arith);
        }
        assert(alignment_facts(30));
    } else if version == 31 {
        assert(alignment_count(31) == 6);
        assert(alignment_step(31) == 26) by {
            assert(137int / 10int == 13int) by (nonlinear_arith);
        }
        assert(alignment_facts(31));
    } else if version == 32 {
        assert(alignment_count(32) == 6);
        assert(alignment_step(32) == 26);
        assert(alignment_facts(32));
    } else if version == 33 {
        assert(alignment_count(33) == 6);
        assert(alignment_step(33) == 28) by {
            assert(145int / 10int == 14int) by (nonlinear_arith);
        }
        assert(alignment_facts(33));
    } else if version == 34 {
        assert(alignment_count(34) == 6);
        assert(alignment_step(34) == 28) by {
            assert(149int / 10int == 14int) by (nonlinear_arith);
        }
        assert(alignment_facts(34));
    } else if version == 35 {
        assert(alignment_count(35) == 7);
        assert(alignment_step(35) == 24) by {
            assert(155int / 12int == 12int) by (nonlinear_arith);
        }
        assert(alignment_facts(35));
    } else if version == 36 {
        assert(alignment_count(36) == 7);
        assert(alignment_step(36) == 26) by {
            assert(159int / 12int == 13int) by (nonlinear_arith);
        }
        assert(alignment_facts(36));
    } else if version == 37 {
        assert(alignment_count(37) == 7);
        assert(alignment_step(37) == 26) by {
            assert(163int / 12int == 13int) by (nonlinear_arith);
        }
        assert(alignment_facts(37));
    } else if version == 38 {
        assert(alignment_count(38) == 7);
        assert(alignment_step(38) == 26) by {
            assert(167int / 12int == 13int) by (nonlinear_arith);
        }
        assert(alignment_facts(38));
    } else if version == 39 {
        assert(alignment_count(39) == 7);
        assert(alignment_step(39) == 28) by {
            assert(171int / 12int == 14int) by (nonlinear_arith);
        }
        assert(alignment_facts(39));
    } else if version == 40 {
        assert(alignment_count(40) == 7);
        assert(alignment_step(40) == 28) by {
            assert(175int / 12int == 14int) by (nonlinear_arith);
        }
        assert(alignment_facts(40));
    }
}

/// Returns the alignment pattern coordinates of `version` and how many
/// there are; unused entries are zero.
pub fn alignment_pattern_positions(version: usize) -> (r: ([usize; 7], usize))
    requires
        1 <= version <= 40,
    ensures
        r.1 == alignment_count(version as int),
        forall|i: int| 0 <= i < r.1 ==> r.0[i] == alignment_position(version as int, i),
        forall|i: int| r.1 <= i < 7 ==> r.0[i] == 0,
{
    if version == 1 {
        return ([0usize; 7], 0);
    }
    proof {
        lemma_alignment_facts(version as int);
    }
    let ghost v = version as int;
    let count = version / 7 + 2;
    let step = if version == 32 {
        26
    } else {
        ((version * 4 + count * 2 + 1) / (count * 2 - 2)) * 2
    };
    assert(step == alignment_step(v));
    let width = version * 4 + 17;
    let mut positions = [0usize; 7];
    positions[0] = 6;
    let mut pos = width - 7;
    let mut index = count - 1;
    assert(count == alignment_count(v));
    assert(pos == alignment_position(v, index as int)) by (nonlinear_arith)
        requires
            index == alignment_count(v) - 1,
            pos == width_of(v) - 7,
            index >= 1,
            alignment_position(v, index as int) == width_of(v) - 7 - (alignment_count(v) - 1
                - index) * alignment_step(v),
    ;
    while index > 1
        invariant
            1 <= index < count,
            count == alignment_count(v),
            step == alignment_step(v),
            v == version as int,
            2 <= version <= 40,
            alignment_facts(v),
            pos == alignment_position(v, index as int),
            positions[0] == 6,
            forall|j: int| index < j < count ==> positions[j] == alignment_position(v, j),
            forall|j: int| count <= j < 7 ==> positions[j] == 0,
        decreases index,
    {
        positions[index] = pos;
        assert(alignment_position(v, index - 1) == pos - step) by (nonlinear_arith)
            requires
                pos == alignment_position(v, index as int),
                step == alignment_step(v),
                1 <= index - 1,
                alignment_position(v, index as int) == width_of(v) - 7 - (alignment_count(v) - 1
                    - index) * alignment_step(v),
                alignment_position(v, index - 1) == width_of(v) - 7 - (alignment_count(v) - 1 - (
                index - 1)) * alignment_step(v),
        ;
        assert(6 <= alignment_position(v, index - 1));
        pos = pos - step;
        index = index - 1;
    }
    positions[1] = pos;
    (positions, count)
}

/// The cells of an alignment pattern drawn before row offset `dy`, column
/// offset `dx`.
pub open spec fn alignment_pattern_upto(
    center_x: int,
    center_y: int,
    dy: int,
    dx: int,
    x: int,
    y: int,
) -> Option<bool> {
    if y - center_y < dy || (y - center_y == dy && x - center_x < dx) {
        alignment_pattern_value(center_x, center_y, x, y)
    } else {
        None
    }
}

/// Draws the 5x5 alignment pattern centered on `(center_x, center_y)`.
fn draw_alignment_pattern(
    width: usize,
    modules: &mut Vec<u8>,
    reserved: &mut Vec<u8>,
    center_x: usize,
    center_y: usize,
)
    requires
        grid_buffer(old(modules)@, width as int),
        grid_buffer(old(reserved)@, width as int),
        width <= 177,
        2 <= center_x,
        center_x + 2 < width,
        2 <= center_y,
        center_y + 2 < width,
    ensures
        painted(
            old(modules)@,
            old(reserved)@,
            final(modules)@,
            final(reserved)@,
            width as int,
            |x: int, y: int| alignment_pattern_value(center_x as int, center_y as int, x, y),
        ),
{
    let ghost m0 = modules@;
    let ghost r0 = reserved@;
    let ghost cx = center_x as int;
    let ghost cy = center_y as int;
    let ghost w = width as int;
    let mut dy: isize = -2;
    while dy <= 2
        invariant
            -2 <= dy <= 3,
            w == width as int,
            cx == center_x as int,
            cy == center_y as int,
            width <= 177,
            2 <= center_x,
            center_x + 2 < width,
            2 <= center_y,
            center_y + 2 < width,
            grid_buffer(m0, w),
            grid_buffer(r0, w),
            modules@.len() == m0.len(),
            reserved@.len() == r0.len(),
            forall|x: int, y: int| in_grid(w, x, y) ==> #[trigger] cell(modules@, w, x, y) == paint(alignment_pattern_upto(cx, cy, dy as int, -2, x, y), cell(m0, w, x, y)),
            forall|x: int, y: int| in_grid(w, x, y) ==> #[trigger] cell(reserved@, w, x, y) == reserve(alignment_pattern_upto(cx, cy, dy as int, -2, x, y), cell(r0, w, x, y)),
        decreases 3 - dy,
    {
        let mut dx: isize = -2;
        while dx <= 2
            invariant
                -2 <= dy <= 2,
                -2 <= dx <= 3,
                w == width as int,
                cx == center_x as int,
                cy == center_y as int,
                width <= 177,
                2 <= center_x,
                center_x + 2 < width,
                2 <= center_y,
                center_y + 2 < width,
                grid_buffer(m0, w),
                grid_buffer(r0, w),
                modules@.len() == m0.len(),
                reserved@.len() == r0.len(),
                forall|x: int, y: int| in_grid(w, x, y) ==> #[trigger] cell(modules@, w, x, y) == paint(alignment_pattern_upto(cx, cy, dy as int, dx as int, x, y), cell(m0, w, x, y)),
                forall|x: int, y: int| in_grid(w, x, y) ==> #[trigger] cell(reserved@, w, x, y) == reserve(alignment_pattern_upto(cx, cy, dy as int, dx as int, x, y), cell(r0, w, x, y)),
            decreases 3 - dx,
        {
            let x = (center_x as isize + dx) as usize;
            let y = (center_y as isize + dy) as usize;
            let is_black = isize_abs(dx) == 2 || isize_abs(dy) == 2 || (dx == 0 && dy == 0);
            let ghost before_m = modules@;
            let ghost before_r = reserved@;
            set_function_module(width, modules, reserved, x, y, is_black);
            dx = dx + 1;
            proof {
                assert forall|x: int, y: int| in_grid(w, x, y) implies #[trigger] cell(modules@, w, x, y) == paint(
                    alignment_pattern_upto(cx, cy, dy as int, dx as int, x, y),
                    cell(m0, w, x, y),
                ) by {
                    assert(cell(before_m, w, x, y) == paint(alignment_pattern_upto(cx, cy, dy as int, dx - 1, x, y), cell(m0, w, x, y)));
                }
                assert forall|x: int, y: int| in_grid(w, x, y) implies #[trigger] cell(reserved@, w, x, y) == reserve(
                    alignment_pattern_upto(cx, cy, dy as int, dx as int, x, y),
                    cell(r0, w, x, y),
                ) by {
                    assert(cell(before_r, w, x, y) == reserve(alignment_pattern_upto(cx, cy, dy as int, dx - 1, x, y), cell(r0, w, x, y)));
                }
            }
        }
        dy = dy + 1;
        proof {
            assert forall|x: int, y: int| in_grid(w, x, y) implies alignment_pattern_upto(cx, cy, dy - 1, 3, x, y) == alignment_pattern_upto(cx, cy, dy as int, -2, x, y) by {}
        }
    }
    proof {
        assert forall|x: int, y: int| in_grid(w, x, y) implies alignment_pattern_upto(cx, cy, 3, -2, x, y) == alignment_pattern_value(cx, cy, x, y) by {}
    }
}

/// Draws every alignment pattern of `version` except the three that would
/// overlap a finder pattern.
fn draw_alignment_patterns(
    version: usize,
    width: usize,
    modules: &mut Vec<u8>,
    reserved: &mut Vec<u8>,
)
    requires
        grid_buffer(old(modules)@, width as int),
        grid_buffer(old(reserved)@, width as int),
        1 <= version <= 40,
        width == width_of(version as int),
    ensures
        painted(
            old(modules)@,
            old(reserved)@,
            final(modules)@,
            final(reserved)@,
            width as int,
            |x: int, y: int| alignment_value(version as int, x, y),
        ),
{
    let ghost m0 = modules@;
    let ghost r0 = reserved@;
    let ghost w = width as int;
    let ghost v = version as int;
    let (positions, count) = alignment_pattern_positions(version);
    proof {
        lemma_alignment_facts(v);
    }
    if count == 0 {
        return;
    }
    let mut y_index: usize = 0;
    while y_index < count
        invariant
            y_index <= count,
            2 <= count <= 7,
            count == alignment_count(v),
            alignment_facts(v),
            forall|i: int| 0 <= i < count ==> positions[i] == alignment_position(v, i),
            v == version as int,
            w == width as int,
            1 <= version <= 40,
            width == width_of(v),
            grid_buffer(m0, w),
            grid_buffer(r0, w),
            modules@.len() == m0.len(),
            reserved@.len() == r0.len(),
            forall|x: int, y: int| in_grid(w, x, y) ==> #[trigger] cell(modules@, w, x, y) == paint(alignment_upto(v, y_index * count, x, y), cell(m0, w, x, y)),
            forall|x: int, y: int| in_grid(w, x, y) ==> #[trigger] cell(reserved@, w, x, y) == reserve(alignment_upto(v, y_index * count, x, y), cell(r0, w, x, y)),
        decreases count - y_index,
    {
        let mut x_index: usize = 0;
        while x_index < count
            invariant
                y_index < count,
                x_index <= count,
                2 <= count <= 7,
                count == alignment_count(v),
                alignment_facts(v),
                forall|i: int| 0 <= i < count ==> positions[i] == alignment_position(v, i),
                v == version as int,
                w == width as int,
                1 <= version <= 40,
                width == width_of(v),
                grid_buffer(m0, w),
                grid_buffer(r0, w),
                modules@.len() == m0.len(),
                reserved@.len() == r0.len(),
                forall|x: int, y: int| in_grid(w, x, y) ==> #[trigger] cell(modules@, w, x, y) == paint(alignment_upto(v, y_index * count + x_index, x, y), cell(m0, w, x, y)),
                forall|x: int, y: int| in_grid(w, x, y) ==> #[trigger] cell(reserved@, w, x, y) == reserve(alignment_upto(v, y_index * count + x_index, x, y), cell(r0, w, x, y)),
            decreases count - x_index,
        {
            let ghost k: int = y_index * count + x_index;
            proof {
                vstd::arithmetic::div_mod::lemma_fundamental_div_mod_converse(
                    k,
                    count as int,
                    y_index as int,
                    x_index as int,
                );
                assert(0 <= k);
            }
            let ghost before_m = modules@;
            let ghost before_r = reserved@;
            let drawn = !((x_index == 0 && y_index == 0) || (x_index == 0 && y_index == count - 1)
                || (x_index == count - 1 && y_index == 0));
            assert(drawn == alignment_drawn(v, x_index as int, y_index as int));
            if drawn {
                let cx = positions[x_index];
                let cy = positions[y_index];
                assert(6 <= alignment_position(v, x_index as int) <= width_of(v) - 7);
                assert(6 <= alignment_position(v, y_index as int) <= width_of(v) - 7);
                draw_alignment_pattern(width, modules, reserved, cx, cy);
            }
            x_index = x_index + 1;
            proof {
                assert forall|x: int, y: int| in_grid(w, x, y) implies #[trigger] cell(modules@, w, x, y) == paint(
                    alignment_upto(v, y_index * count + x_index, x, y),
                    cell(m0, w, x, y),
                ) by {
                    assert(cell(before_m, w, x, y) == paint(alignment_upto(v, k, x, y), cell(m0, w, x, y)));
                    assert(y_index * count + x_index == k + 1);
                }
                assert forall|x: int, y: int| in_grid(w, x, y) implies #[trigger] cell(reserved@, w, x, y) == reserve(
                    alignment_upto(v, y_index * count + x_index, x, y),
                    cell(r0, w, x, y),
                ) by {
                    assert(cell(before_r, w, x, y) == reserve(alignment_upto(v, k, x, y), cell(r0, w, x, y)));
                    assert(y_index * count + x_index == k + 1);
                }
            }
        }
        proof {
            assert((y_index + 1) * count == y_index * count + count) by (nonlinear_arith);
        }
        y_index = y_index + 1;
    }
}

/// Draws every function pattern of `version`: the three finder patterns,
/// the alignment and timing patterns, the format and version areas and
/// the dark module.
fn draw_function_patterns(
    version: usize,
    width: usize,
    modules: &mut Vec<u8>,
    reserved: &mut Vec<u8>,
)
    requires
        grid_buffer(old(modules)@, width as int),
        grid_buffer(old(reserved)@, width as int),
        1 <= version <= 40,
        width == width_of(version as int),
    ensures
        painted(
            old(modules)@,
            old(reserved)@,
            final(modules)@,
            final(reserved)@,
            width as int,
            |x: int, y: int| template_value(version as int, x, y),
        ),
{
    let ghost v = version as int;
    let ghost w = width as int;
    let ghost m0 = modules@;
    let ghost r0 = reserved@;
    draw_finder_pattern(width, modules, reserved, 0, 0);
    let ghost m1 = modules@;
    let ghost r1 = reserved@;
    draw_finder_pattern(width, modules, reserved, width - 7, 0);
    let ghost m2 = modules@;
    let ghost r2 = reserved@;
    draw_finder_pattern(width, modules, reserved, 0, width - 7);
    let ghost m3 = modules@;
    let ghost r3 = reserved@;
    draw_alignment_patterns(version, width, modules, reserved);
    let ghost m4 = modules@;
    let ghost r4 = reserved@;
    draw_timing_patterns(width, modules, reserved);
    let ghost m5 = modules@;
    let ghost r5 = reserved@;
    reserve_format_areas(width, modules, reserved);
    let ghost m6 = modules@;
    let ghost r6 = reserved@;
    draw_version_info(version, width, modules, reserved);
    let ghost m7 = modules@;
    let ghost r7 = reserved@;
    set_function_module(width, modules, reserved, 8, width - 8, true);
    proof {
        assert forall|x: int, y: int| in_grid(w, x, y) implies #[trigger] cell(modules@, w, x, y)
            == paint(template_value(v, x, y), cell(m0, w, x, y)) && #[trigger] cell(reserved@, w, x, y)
            == reserve(template_value(v, x, y), cell(r0, w, x, y)) by {
            assert(cell(m1, w, x, y) == paint(finder_value(0, 0, x, y), cell(m0, w, x, y)));
            assert(cell(m2, w, x, y) == paint(finder_value(w - 7, 0, x, y), cell(m1, w, x, y)));
            assert(cell(m3, w, x, y) == paint(finder_value(0, w - 7, x, y), cell(m2, w, x, y)));
            assert(cell(m4, w, x, y) == paint(alignment_value(v, x, y), cell(m3, w, x, y)));
            assert(cell(m5, w, x, y) == paint(timing_value(w, x, y), cell(m4, w, x, y)));
            assert(cell(m6, w, x, y) == paint(
                if format_area(w, x, y) {
                    Some(false)
                } else {
                    None
                },
                cell(m5, w, x, y),
            ));
            assert(cell(m7, w, x, y) == paint(version_value(v, x, y), cell(m6, w, x, y)));
            assert(cell(r1, w, x, y) == reserve(finder_value(0, 0, x, y), cell(r0, w, x, y)));
            assert(cell(r2, w, x, y) == reserve(finder_value(w - 7, 0, x, y), cell(r1, w, x, y)));
            assert(cell(r3, w, x, y) == reserve(finder_value(0, w - 7, x, y), cell(r2, w, x, y)));
            assert(cell(r4, w, x, y) == reserve(alignment_value(v, x, y), cell(r3, w, x, y)));
            assert(cell(r5, w, x, y) == reserve(timing_value(w, x, y), cell(r4, w, x, y)));
            assert(cell(r6, w, x, y) == reserve(
                if format_area(w, x, y) {
                    Some(false)
                } else {
                    None
                },
                cell(r5, w, x, y),
            ));
            assert(cell(r7, w, x, y) == reserve(version_value(v, x, y), cell(r6, w, x, y)));
        }
    }
}

/// Every cell of a zero-filled grid buffer is light.
proof fn lemma_zero_cell(buf: Seq<u8>, w: int, x: int, y: int)
    requires
        in_grid(w, x, y),
        buf.len() == (w * w + 7) / 8,
        forall|i: int| 0 <= i < buf.len() ==> buf[i] == 0u8,
    ensures
        !cell(buf, w, x, y),
{
    crate::bits::lemma_zero_byte_bits();
    crate::bits::lemma_cell_index(w, x, y, x, y);
    let i = y * w + x;
    assert(0 <= i / 8 < buf.len()) by (nonlinear_arith)
        requires
            0 <= i < w * w,
            buf.len() == (w * w + 7) / 8,
    ;
    assert(0 <= i % 8 < 8);
    assert(buf[i / 8] == 0u8);
}

/// Builds the function-pattern templates of version `T`: a module grid
/// and a reserved-cell grid, `(width * width + 7) / 8` bytes each.
pub fn build_version_matrix_templates<T: Version>() -> (r: VersionMatrixTemplates<Vec<u8>>)
    ensures
        r.modules@.len() == (width_of(T::spec_version() as int) * width_of(T::spec_version() as int)
            + 7) / 8,
        r.reserved@.len() == r.modules@.len(),
        forall|x: int, y: int|
            in_grid(width_of(T::spec_version() as int), x, y) ==> #[trigger] cell(
                r.modules@,
                width_of(T::spec_version() as int),
                x,
                y,
            ) == (template_value(T::spec_version() as int, x, y) == Some(true)),
        forall|x: int, y: int|
            in_grid(width_of(T::spec_version() as int), x, y) ==> #[trigger] cell(
                r.reserved@,
                width_of(T::spec_version() as int),
                x,
                y,
            ) == template_value(T::spec_version() as int, x, y) is Some,
{
    let version = T::version();
    let width = version * 4 + 17;
    let ghost w = width as int;
    assert(width * width <= 177 * 177) by (nonlinear_arith)
        requires
            width <= 177,
    ;
    let bytes = (width * width + 7) / 8;
    let mut modules = vec![0u8; bytes];
    let mut reserved = vec![0u8; bytes];
    proof {
        crate::bits::lemma_zero_byte_bits();
        assert forall|x: int, y: int| in_grid(w, x, y) implies !#[trigger] cell(modules@, w, x, y) by {
            lemma_zero_cell(modules@, w, x, y);
        }
        assert forall|x: int, y: int| in_grid(w, x, y) implies !#[trigger] cell(reserved@, w, x, y) by {
            lemma_zero_cell(reserved@, w, x, y);
        }
    }
    let ghost m0 = modules@;
    let ghost r0 = reserved@;
    draw_function_patterns(version, width, &mut modules, &mut reserved);
    proof {
        assert forall|x: int, y: int| in_grid(w, x, y) implies #[trigger] cell(reserved@, w, x, y)
            == template_value(version as int, x, y) is Some by {
            assert(!cell(r0, w, x, y));
        }
        assert forall|x: int, y: int| in_grid(w, x, y) implies #[trigger] cell(modules@, w, x, y)
            == (template_value(version as int, x, y) == Some(true)) by {
            assert(!cell(m0, w, x, y));
        }
    }
    VersionMatrixTemplates { modules, reserved }
}

/// Returns the absolute value of `value`.
fn isize_abs(value: isize) -> (r: usize)
    requires
        value > isize::MIN,
    ensures
        r as int == if value < 0 {
            -value
        } else {
            value as int
        },
{
    if value < 0 {
        (-value) as usize
    } else {
        value as usize
    }
}

/// The 18-bit version information words that the QR standard tabulates
/// for versions 7 through 40.
pub open spec fn standard_version_words() -> Seq<u32> {
    seq![
        0x07C94u32, 0x085BCu32, 0x09A99u32, 0x0A4D3u32, 0x0BBF6u32, 0x0C762u32,
        0x0D847u32, 0x0E60Du32, 0x0F928u32, 0x10B78u32, 0x1145Du32, 0x12A17u32,
        0x13532u32, 0x149A6u32, 0x15683u32, 0x168C9u32, 0x177ECu32, 0x18EC4u32,
        0x191E1u32, 0x1AFABu32, 0x1B08Eu32, 0x1CC1Au32, 0x1D33Fu32, 0x1ED75u32,
        0x1F250u32, 0x209D5u32, 0x216F0u32, 0x228BAu32, 0x2379Fu32, 0x24B0Bu32,
        0x2542Eu32, 0x26A64u32, 0x27541u32, 0x28C69u32
    ]
}

/// The version words computed from the BCH code.
proof fn lemma_version_words_computed()
    ensures
        ((7u32 << 12u32) | version_remainder(7u32, 12)) == 0x07C94u32,
        ((8u32 << 12u32) | version_remainder(8u32, 12)) == 0x085BCu32,
        ((9u32 << 12u32) | version_remainder(9u32, 12)) == 0x09A99u32,
        ((10u32 << 12u32) | version_remainder(10u32, 12)) == 0x0A4D3u32,
        ((11u32 << 12u32) | version_remainder(11u32, 12)) == 0x0BBF6u32,
        ((12u32 << 12u32) | version_remainder(12u32, 12)) == 0x0C762u32,
        ((13u32 << 12u32) | version_remainder(13u32, 12)) == 0x0D847u32,
        ((14u32 << 12u32) | version_remainder(14u32, 12)) == 0x0E60Du32,
        ((15u32 << 12u32) | version_remainder(15u32, 12)) == 0x0F928u32,
        ((16u32 << 12u32) | version_remainder(16u32, 12)) == 0x10B78u32,
        ((17u32 << 12u32) | version_remainder(17u32, 12)) == 0x1145Du32,
        ((18u32 << 12u32) | version_remainder(18u32, 12)) == 0x12A17u32,
        ((19u32 << 12u32) | version_remainder(19u32, 12)) == 0x13532u32,
        ((20u32 << 12u32) | version_remainder(20u32, 12)) == 0x149A6u32,
        ((21u32 << 12u32) | version_remainder(21u32, 12)) == 0x15683u32,
        ((22u32 << 12u32) | version_remainder(22u32, 12)) == 0x168C9u32,
        ((23u32 << 12u32) | version_remainder(23u32, 12)) == 0x177ECu32,
        ((24u32 << 12u32) | version_remainder(24u32, 12)) == 0x18EC4u32,
        ((25u32 << 12u32) | version_remainder(25u32, 12)) == 0x191E1u32,
        ((26u32 << 12u32) | version_remainder(26u32, 12)) == 0x1AFABu32,
        ((27u32 << 12u32) | version_remainder(27u32, 12)) == 0x1B08Eu32,
        ((28u32 << 12u32) | version_remainder(28u32, 12)) == 0x1CC1Au32,
        ((29u32 << 12u32) | version_remainder(29u32, 12)) == 0x1D33Fu32,
        ((30u32 << 12u32) | version_remainder(30u32, 12)) == 0x1ED75u32,
        ((31u32 << 12u32) | version_remainder(31u32, 12)) == 0x1F250u32,
        ((32u32 << 12u32) | version_remainder(32u32, 12)) == 0x209D5u32,
        ((33u32 << 12u32) | version_remainder(33u32, 12)) == 0x216F0u32,
        ((34u32 << 12u32) | version_remainder(34u32, 12)) == 0x228BAu32,
        ((35u32 << 12u32) | version_remainder(35u32, 12)) == 0x2379Fu32,
        ((36u32 << 12u32) | version_remainder(36u32, 12)) == 0x24B0Bu32,
        ((37u32 << 12u32) | version_remainder(37u32, 12)) == 0x2542Eu32,
        ((38u32 << 12u32) | version_remainder(38u32, 12)) == 0x26A64u32,
        ((39u32 << 12u32) | version_remainder(39u32, 12)) == 0x27541u32,
        ((40u32 << 12u32) | version_remainder(40u32, 12)) == 0x28C69u32,
{
    assert(((7u32 << 12u32) | version_remainder(7u32, 12)) == 0x07C94u32 && ((8u32 << 12u32) | version_remainder(8u32, 12)) == 0x085BCu32 && ((9u32 << 12u32) | version_remainder(9u32, 12)) == 0x09A99u32 && ((10u32 << 12u32) | version_remainder(10u32, 12)) == 0x0A4D3u32 && ((11u32 << 12u32) | version_remainder(11u32, 12)) == 0x0BBF6u32 && ((12u32 << 12u32) | version_remainder(12u32, 12)) == 0x0C762u32 && ((13u32 << 12u32) | version_remainder(13u32, 12)) == 0x0D847u32 && ((14u32 << 12u32) | version_remainder(14u32, 12)) == 0x0E60Du32 && ((15u32 << 12u32) | version_remainder(15u32, 12)) == 0x0F928u32 && ((16u32 << 12u32) | version_remainder(16u32, 12)) == 0x10B78u32 && ((17u32 << 12u32) | version_remainder(17u32, 12)) == 0x1145Du32 && ((18u32 << 12u32) | version_remainder(18u32, 12)) == 0x12A17u32 && ((19u32 << 12u32) | version_remainder(19u32, 12)) == 0x13532u32 && ((20u32 << 12u32) | version_remainder(20u32, 12)) == 0x149A6u32 && ((21u32 << 12u32) | version_remainder(21u32, 12)) == 0x15683u32 && ((22u32 << 12u32) | version_remainder(22u32, 12)) == 0x168C9u32 && ((23u32 << 12u32) | version_remainder(23u32, 12)) == 0x177ECu32 && ((24u32 << 12u32) | version_remainder(24u32, 12)) == 0x18EC4u32 && ((25u32 << 12u32) | version_remainder(25u32, 12)) == 0x191E1u32 && ((26u32 << 12u32) | version_remainder(26u32, 12)) == 0x1AFABu32 && ((27u32 << 12u32) | version_remainder(27u32, 12)) == 0x1B08Eu32 && ((28u32 << 12u32) | version_remainder(28u32, 12)) == 0x1CC1Au32 && ((29u32 << 12u32) | version_remainder(29u32, 12)) == 0x1D33Fu32 && ((30u32 << 12u32) | version_remainder(30u32, 12)) == 0x1ED75u32 && ((31u32 << 12u32) | version_remainder(31u32, 12)) == 0x1F250u32 && ((32u32 << 12u32) | version_remainder(32u32, 12)) == 0x209D5u32 && ((33u32 << 12u32) | version_remainder(33u32, 12)) == 0x216F0u32 && ((34u32 << 12u32) | version_remainder(34u32, 12)) == 0x228BAu32 && ((35u32 << 12u32) | version_remainder(35u32, 12)) == 0x2379Fu32 && ((36u32 << 12u32) | version_remainder(36u32, 12)) == 0x24B0Bu32 && ((37u32 << 12u32) | version_remainder(37u32, 12)) == 0x2542Eu32 && ((38u32 << 12u32) | version_remainder(38u32, 12)) == 0x26A64u32 && ((39u32 << 12u32) | version_remainder(39u32, 12)) == 0x27541u32 && ((40u32 << 12u32) | version_remainder(40u32, 12)) == 0x28C69u32) by (bit_vector);
}

/// The version information of every version from 7 on is the word the QR
/// standard tabulates for it.
pub proof fn lemma_version_words_standard(version: int)
    requires
        7 <= version <= 40,
    ensures
        version_word(version) == standard_version_words()[version - 7],
{
    lemma_version_words_computed();
    if version == 7 {
        assert(version_word(7) == standard_version_words()[0]);
    } else if version == 8 {
        assert(version_word(8) == standard_version_words()[1]);
    } else if version == 9 {
        assert(version_word(9) == standard_version_words()[2]);
    } else if version == 10 {
        assert(version_word(10) == standard_version_words()[3]);
    } else if version == 11 {
        assert(version_word(11) == standard_version_words()[4]);
    } else if version == 12 {
        assert(version_word(12) == standard_version_words()[5]);
    } else if version == 13 {
        assert(version_word(13) == standard_version_words()[6]);
    } else if version == 14 {
        assert(version_word(14) == standard_version_words()[7]);
    } else if version == 15 {
        assert(version_word(15) == standard_version_words()[8]);
    } else if version == 16 {
        assert(version_word(16) == standard_version_words()[9]);
    } else if version == 17 {
        assert(version_word(17) == standard_version_words()[10]);
    } else if version == 18 {
        assert(version_word(18) == standard_version_words()[11]);
    } else if version == 19 {
        assert(version_word(19) == standard_version_words()[12]);
    } else if version == 20 {
        assert(version_word(20) == standard_version_words()[13]);
    } else if version == 21 {
        assert(version_word(21) == standard_version_words()[14]);
    } else if version == 22 {
        assert(version_word(22) == standard_version_words()[15]);
    } else if version == 23 {
        assert(version_word(23) == standard_version_words()[16]);
    } else if version == 24 {
        assert(version_word(24) == standard_version_words()[17]);
    } else if version == 25 {
        assert(version_word(25) == standard_version_words()[18]);
    } else if version == 26 {
        assert(version_word(26) == standard_version_words()[19]);
    } else if version == 27 {
        assert(version_word(27) == standard_version_words()[20]);
    } else if version == 28 {
        assert(version_word(28) == standard_version_words()[21]);
    } else if version == 29 {
        assert(version_word(29) == standard_version_words()[22]);
    } else if version == 30 {
        assert(version_word(30) == standard_version_words()[23]);
    } else if version == 31 {
        assert(version_word(31) == standard_version_words()[24]);
    } else if version == 32 {
        assert(version_word(32) == standard_version_words()[25]);
    } else if version == 33 {
        assert(version_word(33) == standard_version_words()[26]);
    } else if version == 34 {
        assert(version_word(34) == standard_version_words()[27]);
    } else if version == 35 {
        assert(version_word(35) == standard_version_words()[28]);
    } else if version == 36 {
        assert(version_word(36) == standard_version_words()[29]);
    } else if version == 37 {
        assert(version_word(37) == standard_version_words()[30]);
    } else if version == 38 {
        assert(version_word(38) == standard_version_words()[31]);
    } else if version == 39 {
        assert(version_word(39) == standard_version_words()[32]);
    } else if version == 40 {
        assert(version_word(40) == standard_version_words()[33]);
    }
}

/// The alignment pattern coordinates that the QR standard tabulates for
/// each version.
pub open spec fn standard_alignment_positions(version: int) -> Seq<int> {
    if version == 1 {
        Seq::<int>::empty()
    } else if version == 2 {
        seq![6int, 18int]
    } else if version == 3 {
        seq![6int, 22int]
    } else if version == 4 {
        seq![6int, 26int]
    } else if version == 5 {
        seq![6int, 30int]
    } else if version == 6 {
        seq![6int, 34int]
    } else if version == 7 {
        seq![6int, 22int, 38int]
    } else if version == 8 {
        seq![6int, 24int, 42int]
    } else if version == 9 {
        seq![6int, 26int, 46int]
    } else if version == 10 {
        seq![6int, 28int, 50int]
    } else if version == 11 {
        seq![6int, 30int, 54int]
    } else if version == 12 {
        seq![6int, 32int, 58int]
    } else if version == 13 {
        seq![6int, 34int, 62int]
    } else if version == 14 {
        seq![6int, 26int, 46int, 66int]
    } else if version == 15 {
        seq![6int, 26int, 48int, 70int]
    } else if version == 16 {
        seq![6int, 26int, 50int, 74int]
    } else if version == 17 {
        seq![6int, 30int, 54int, 78int]
    } else if version == 18 {
        seq![6int, 30int, 56int, 82int]
    } else if version == 19 {
        seq![6int, 30int, 58int, 86int]
    } else if version == 20 {
        seq![6int, 34int, 62int, 90int]
    } else if version == 21 {
        seq![6int, 28int, 50int, 72int, 94int]
    } else if version == 22 {
        seq![6int, 26int, 50int, 74int, 98int]
    } else if version == 23 {
        seq![6int, 30int, 54int, 78int, 102int]
    } else if version == 24 {
        seq![6int, 28int, 54int, 80int, 106int]
    } else if version == 25 {
        seq![6int, 32int, 58int, 84int, 110int]
    } else if version == 26 {
        seq![6int, 30int, 58int, 86int, 114int]
    } else if version == 27 {
        seq![6int, 34int, 62int, 90int, 118int]
    } else if version == 28 {
        seq![6int, 26int, 50int, 74int, 98int, 122int]
    } else if version == 29 {
        seq![6int, 30int, 54int, 78int, 102int, 126int]
    } else if version == 30 {
        seq![6int, 26int, 52int, 78int, 104int, 130int]
    } else if version == 31 {
        seq![6int, 30int, 56int, 82int, 108int, 134int]
    } else if version == 32 {
        seq![6int, 34int, 60int, 86int, 112int, 138int]
    } else if version == 33 {
        seq![6int, 30int, 58int, 86int, 114int, 142int]
    } else if version == 34 {
        seq![6int, 34int, 62int, 90int, 118int, 146int]
    } else if version == 35 {
        seq![6int, 30int, 54int, 78int, 102int, 126int, 150int]
    } else if version == 36 {
        seq![6int, 24int, 50int, 76int, 102int, 128int, 154int]
    } else if version == 37 {
        seq![6int, 28int, 54int, 80int, 106int, 132int, 158int]
    } else if version == 38 {
        seq![6int, 32int, 58int, 84int, 110int, 136int, 162int]
    } else if version == 39 {
        seq![6int, 26int, 54int, 82int, 110int, 138int, 166int]
    } else {
        seq![6int, 30int, 58int, 86int, 114int, 142int, 170int]
    }
}

/// The alignment pattern coordinates of every version are those the QR
/// standard tabulates.
#[verifier::rlimit(100)]
pub proof fn lemma_alignment_positions_standard(version: int)
    requires
        1 <= version <= 40,
    ensures
        alignment_count(version) == standard_alignment_positions(version).len(),
        forall|i: int|
            0 <= i < alignment_count(version) ==> #[trigger] alignment_position(version, i)
                == standard_alignment_positions(version)[i],
{
    if version == 1 {
        assert(standard_alignment_positions(1) =~= Seq::<int>::empty());
    } else if version == 2 {
        assert(alignment_step(2) == 12) by {
            assert(13int / 2int == 6int) by (nonlinear_arith);
        }
        assert(alignment_count(2) == 2);
        assert(alignment_position(2, 0) == 6);
        assert(alignment_position(2, 1) == 18);
        assert(standard_alignment_positions(2) =~= seq![6int, 18int]);
    } else if version == 3 {
        assert(alignment_step(3) == 16) by {
            assert(17int / 2int == 8int) by (nonlinear_arith);
        }
        assert(alignment_count(3) == 2);
        assert(alignment_position(3, 0) == 6);
        assert(alignment_position(3, 1) == 22);
        assert(standard_alignment_positions(3) =~= seq![6int, 22int]);
    } else if version == 4 {
        assert(alignment_step(4) == 20) by {
            assert(21int / 2int == 10int) by (nonlinear_arith);
        }
        assert(alignment_count(4) == 2);
        assert(alignment_position(4, 0) == 6);
        assert(alignment_position(4, 1) == 26);
        assert(standard_alignment_positions(4) =~= seq![6int, 26int]);
    } else if version == 5 {
        assert(alignment_step(5) == 24) by {
            assert(25int / 2int == 12int) by (nonlinear_arith);
        }
        assert(alignment_count(5) == 2);
        assert(alignment_position(5, 0) == 6);
        assert(alignment_position(5, 1) == 30);
        assert(standard_alignment_positions(5) =~= seq![6int, 30int]);
    } else if version == 6 {
        assert(alignment_step(6) == 28) by {
            assert(29int / 2int == 14int) by (nonlinear_arith);
        }
        assert(alignment_count(6) == 2);
        assert(alignment_position(6, 0) == 6);
        assert(alignment_position(6, 1) == 34);
        assert(standard_alignment_positions(6) =~= seq![6int, 34int]);
    } else if version == 7 {
        assert(alignment_step(7) == 16) by {
            assert(35int / 4int == 8int) by (nonlinear_arith);
        }
        assert(alignment_count(7) == 3);
        assert(alignment_position(7, 0) == 6);
        assert(alignment_position(7, 1) == 22);
        assert(alignment_position(7, 2) == 38);
        assert(standard_alignment_positions(7) =~= seq![6int, 22int, 38int]);
    } else if version == 8 {
        assert(alignment_step(8) == 18) by {
            assert(39int / 4int == 9int) by (nonlinear_arith);
        }
        assert(alignment_count(8) == 3);
        assert(alignment_position(8, 0) == 6);
        assert(alignment_position(8, 1) == 24);
        assert(alignment_position(8, 2) == 42);
        assert(standard_alignment_positions(8) =~= seq![6int, 24int, 42int]);
    } else if version == 9 {
        assert(alignment_step(9) == 20) by {
            assert(43int / 4int == 10int) by (nonlinear_arith);
        }
        assert(alignment_count(9) == 3);
        assert(alignment_position(9, 0) == 6);
        assert(alignment_position(9, 1) == 26);
        assert(alignment_position(9, 2) == 46);
        assert(standard_alignment_positions(9) =~= seq![6int, 26int, 46int]);
    } else if version == 10 {
        assert(alignment_step(10) == 22) by {
            assert(47int / 4int == 11int) by (nonlinear_arith);
        }
        assert(alignment_count(10) == 3);
        assert(alignment_position(10, 0) == 6);
        assert(alignment_position(10, 1) == 28);
        assert(alignment_position(10, 2) == 50);
        assert(standard_alignment_positions(10) =~= seq![6int, 28int, 50int]);
    } else if version == 11 {
        assert(alignment_step(11) == 24) by {
            assert(51int / 4int == 12int) by (nonlinear_arith);
        }
        assert(alignment_count(11) == 3);
        assert(alignment_position(11, 0) == 6);
        assert(alignment_position(11, 1) == 30);
        assert(alignment_position(11, 2) == 54);
        assert(standard_alignment_positions(11) =~= seq![6int, 30int, 54int]);
    } else if version == 12 {
        assert(alignment_step(12) == 26) by {
            assert(55int / 4int == 13int) by (nonlinear_arith);
        }
        assert(alignment_count(12) == 3);
        assert(alignment_position(12, 0) == 6);
        assert(alignment_position(12, 1) == 32);
        assert(alignment_position(12, 2) == 58);
        assert(standard_alignment_positions(12) =~= seq![6int, 32int, 58int]);
    } else if version == 13 {
        assert(alignment_step(13) == 28) by {
            assert(59int / 4int == 14int) by (nonlinear_arith);
        }
        assert(alignment_count(13) == 3);
        assert(alignment_position(13, 0) == 6);
        assert(alignment_position(13, 1) == 34);
        assert(alignment_position(13, 2) == 62);
        assert(standard_alignment_positions(13) =~= seq![6int, 34int, 62int]);
    } else if version == 14 {
        assert(alignment_step(14) == 20) by {
            assert(65int / 6int == 10int) by (nonlinear_arith);
        }
        assert(alignment_count(14) == 4);
        assert(alignment_position(14, 0) == 6);
        assert(alignment_position(14, 1) == 26);
        assert(alignment_position(14, 2) == 46);
        assert(alignment_position(14, 3) == 66);
        assert(standard_alignment_positions(14) =~= seq![6int, 26int, 46int, 66int]);
    } else if version == 15 {
        assert(alignment_step(15) == 22) by {
            assert(69int / 6int == 11int) by (nonlinear_arith);
        }
        assert(alignment_count(15) == 4);
        assert(alignment_position(15, 0) == 6);
        assert(alignment_position(15, 1) == 26);
        assert(alignment_position(15, 2) == 48);
        assert(alignment_position(15, 3) == 70);
        assert(standard_alignment_positions(15) =~= seq![6int, 26int, 48int, 70int]);
    } else if version == 16 {
        assert(alignment_step(16) == 24) by {
            assert(73int / 6int == 12int) by (nonlinear_arith);
        }
        assert(alignment_count(16) == 4);
        assert(alignment_position(16, 0) == 6);
        assert(alignment_position(16, 1) == 26);
        assert(alignment_position(16, 2) == 50);
        assert(alignment_position(16, 3) == 74);
        assert(standard_alignment_positions(16) =~= seq![6int, 26int, 50int, 74int]);
    } else if version == 17 {
        assert(alignment_step(17) == 24) by {
            assert(77int / 6int == 12int) by (nonlinear_arith);
        }
        assert(alignment_count(17) == 4);
        assert(alignment_position(17, 0) == 6);
        assert(alignment_position(17, 1) == 30);
        assert(alignment_position(17, 2) == 54);
        assert(alignment_position(17, 3) == 78);
        assert(standard_alignment_positions(17) =~= seq![6int, 30int, 54int, 78int]);
    } else if version == 18 {
        assert(alignment_step(18) == 26) by {
            assert(81int / 6int == 13int) by (nonlinear_arith);
        }
        assert(alignment_count(18) == 4);
        assert(alignment_position(18, 0) == 6);
        assert(alignment_position(18, 1) == 30);
        assert(alignment_position(18, 2) == 56);
        assert(alignment_position(18, 3) == 82);
        assert(standard_alignment_positions(18) =~= seq![6int, 30int, 56int, 82int]);
    } else if version == 19 {
        assert(alignment_step(19) == 28) by {
            assert(85int / 6int == 14int) by (nonlinear_arith);
        }
        assert(alignment_count(19) == 4);
        assert(alignment_position(19, 0) == 6);
        assert(alignment_position(19, 1) == 30);
        assert(alignment_position(19, 2) == 58);
        assert(alignment_position(19, 3) == 86);
        assert(standard_alignment_positions(19) =~= seq![6int, 30int, 58int, 86int]);
    } else if version == 20 {
        assert(alignment_step(20) == 28) by {
            assert(89int / 6int == 14int) by (nonlinear_arith);
        }
        assert(alignment_count(20) == 4);
        assert(alignment_position(20, 0) == 6);
        assert(alignment_position(20, 1) == 34);
        assert(alignment_position(20, 2) == 62);
        assert(alignment_position(20, 3) == 90);
        assert(standard_alignment_positions(20) =~= seq![6int, 34int, 62int, 90int]);
    } else if version == 21 {
        assert(alignment_step(21) == 22) by {
            assert(95int / 8int == 11int) by (nonlinear_arith);
        }
        assert(alignment_count(21) == 5);
        assert(alignment_position(21, 0) == 6);
        assert(alignment_position(21, 1) == 28);
        assert(alignment_position(21, 2) == 50);
        assert(alignment_position(21, 3) == 72);
        assert(alignment_position(21, 4) == 94);
        assert(standard_alignment_positions(21) =~= seq![6int, 28int, 50int, 72int, 94int]);
    } else if version == 22 {
        assert(alignment_step(22) == 24) by {
            assert(99int / 8int == 12int) by (nonlinear_arith);
        }
        assert(alignment_count(22) == 5);
        assert(alignment_position(22, 0) == 6);
        assert(alignment_position(22, 1) == 26);
        assert(alignment_position(22, 2) == 50);
        assert(alignment_position(22, 3) == 74);
        assert(alignment_position(22, 4) == 98);
        assert(standard_alignment_positions(22) =~= seq![6int, 26int, 50int, 74int, 98int]);
    } else if version == 23 {
        assert(alignment_step(23) == 24) by {
            assert(103int / 8int == 12int) by (nonlinear_arith);
        }
        assert(alignment_count(23) == 5);
        assert(alignment_position(23, 0) == 6);
        assert(alignment_position(23, 1) == 30);
        assert(alignment_position(23, 2) == 54);
        assert(alignment_position(23, 3) == 78);
        assert(alignment_position(23, 4) == 102);
        assert(standard_alignment_positions(23) =~= seq![6int, 30int, 54int, 78int, 102int]);
    } else if version == 24 {
        assert(alignment_step(24) == 26) by {
            assert(107int / 8int == 13int) by (nonlinear_arith);
        }
        assert(alignment_count(24) == 5);
        assert(alignment_position(24, 0) == 6);
        assert(alignment_position(24, 1) == 28);
        assert(alignment_position(24, 2) == 54);
        assert(alignment_position(24, 3) == 80);
        assert(alignment_position(24, 4) == 106);
        assert(standard_alignment_positions(24) =~= seq![6int, 28int, 54int, 80int, 106int]);
    } else if version == 25 {
        assert(alignment_step(25) == 26) by {
            assert(111int / 8int == 13int) by (nonlinear_arith);
        }
        assert(alignment_count(25) == 5);
        assert(alignment_position(25, 0) == 6);
        assert(alignment_position(25, 1) == 32);
        assert(alignment_position(25, 2) == 58);
        assert(alignment_position(25, 3) == 84);
        assert(alignment_position(25, 4) == 110);
        assert(standard_alignment_positions(25) =~= seq![6int, 32int, 58int, 84int, 110int]);
    } else if version == 26 {
        assert(alignment_step(26) == 28) by {
            assert(115int / 8int == 14int) by (nonlinear_arith);
        }
        assert(alignment_count(26) == 5);
        assert(alignment_position(26, 0) == 6);
        assert(alignment_position(26, 1) == 30);
        assert(alignment_position(26, 2) == 58);
        assert(alignment_position(26, 3) == 86);
        assert(alignment_position(26, 4) == 114);
        assert(standard_alignment_positions(26) =~= seq![6int, 30int, 58int, 86int, 114int]);
    } else if version == 27 {
        assert(alignment_step(27) == 28) by {
            assert(119int / 8int == 14int) by (nonlinear_arith);
        }
        assert(alignment_count(27) == 5);
        assert(alignment_position(27, 0) == 6);
        assert(alignment_position(27, 1) == 34);
        assert(alignment_position(27, 2) == 62);
        assert(alignment_position(27, 3) == 90);
        assert(alignment_position(27, 4) == 118);
        assert(standard_alignment_positions(27) =~= seq![6int, 34int, 62int, 90int, 118int]);
    } else if version == 28 {
        assert(alignment_step(28) == 24) by {
            assert(125int / 10int == 12int) by (nonlinear_arith);
        }
        assert(alignment_count(28) == 6);
        assert(alignment_position(28, 0) == 6);
        assert(alignment_position(28, 1) == 26);
        assert(alignment_position(28, 2) == 50);
        assert(alignment_position(28, 3) == 74);
        assert(alignment_position(28, 4) == 98);
        assert(alignment_position(28, 5) == 122);
        assert(standard_alignment_positions(28) =~= seq![6int, 26int, 50int, 74int, 98int, 122int]);
    } else if version == 29 {
        assert(alignment_step(29) == 24) by {
            assert(129int / 10int == 12int) by (nonlinear_arith);
        }
        assert(alignment_count(29) == 6);
        assert(alignment_position(29, 0) == 6);
        assert(alignment_position(29, 1) == 30);
        assert(alignment_position(29, 2) == 54);
        assert(alignment_position(29, 3) == 78);
        assert(alignment_position(29, 4) == 102);
        assert(alignment_position(29, 5) == 126);
        assert(standard_alignment_positions(29) =~= seq![6int, 30int, 54int, 78int, 102int, 126int]);
    } else if version == 30 {
        assert(alignment_step(30) == 26) by {
            assert(133int / 10int == 13int) by (nonlinear_arith);
        }
        assert(alignment_count(30) == 6);
        assert(alignment_position(30, 0) == 6);
        assert(alignment_position(30, 1) == 26);
        assert(alignment_position(30, 2) == 52);
        assert(alignment_position(30, 3) == 78);
        assert(alignment_position(30, 4) == 104);
        assert(alignment_position(30, 5) == 130);
        assert(standard_alignment_positions(30) =~= seq![6int, 26int, 52int, 78int, 104int, 130int]);
    } else if version == 31 {
        assert(alignment_step(31) == 26) by {
            assert(137int / 10int == 13int) by (nonlinear_arith);
        }
        assert(alignment_count(31) == 6);
        assert(alignment_position(31, 0) == 6);
        assert(alignment_position(31, 1) == 30);
        assert(alignment_position(31, 2) == 56);
        assert(alignment_position(31, 3) == 82);
        assert(alignment_position(31, 4) == 108);
        assert(alignment_position(31, 5) == 134);
        assert(standard_alignment_positions(31) =~= seq![6int, 30int, 56int, 82int, 108int, 134int]);
    } else if version == 32 {
        assert(alignment_step(32) == 26);
        assert(alignment_count(32) == 6);
        assert(alignment_position(32, 0) == 6);
        assert(alignment_position(32, 1) == 34);
        assert(alignment_position(32, 2) == 60);
        assert(alignment_position(32, 3) == 86);
        assert(alignment_position(32, 4) == 112);
        assert(alignment_position(32, 5) == 138);
        assert(standard_alignment_positions(32) =~= seq![6int, 34int, 60int, 86int, 112int, 138int]);
    } else if version == 33 {
        assert(alignment_step(33) == 28) by {
            assert(145int / 10int == 14int) by (nonlinear_arith);
        }
        assert(alignment_count(33) == 6);
        assert(alignment_position(33, 0) == 6);
        assert(alignment_position(33, 1) == 30);
        assert(alignment_position(33, 2) == 58);
        assert(alignment_position(33, 3) == 86);
        assert(alignment_position(33, 4) == 114);
        assert(alignment_position(33, 5) == 142);
        assert(standard_alignment_positions(33) =~= seq![6int, 30int, 58int, 86int, 114int, 142int]);
    } else if version == 34 {
        assert(alignment_step(34) == 28) by {
            assert(149int / 10int == 14int) by (nonlinear_arith);
        }
        assert(alignment_count(34) == 6);
        assert(alignment_position(34, 0) == 6);
        assert(alignment_position(34, 1) == 34);
        assert(alignment_position(34, 2) == 62);
        assert(alignment_position(34, 3) == 90);
        assert(alignment_position(34, 4) == 118);
        assert(alignment_position(34, 5) == 146);
        assert(standard_alignment_positions(34) =~= seq![6int, 34int, 62int, 90int, 118int, 146int]);
    } else if version == 35 {
        assert(alignment_step(35) == 24) by {
            assert(155int / 12int == 12int) by (nonlinear_arith);
        }
        assert(alignment_count(35) == 7);
        assert(alignment_position(35, 0) == 6);
        assert(alignment_position(35, 1) == 30);
        assert(alignment_position(35, 2) == 54);
        assert(alignment_position(35, 3) == 78);
        assert(alignment_position(35, 4) == 102);
        assert(alignment_position(35, 5) == 126);
        assert(alignment_position(35, 6) == 150);
        assert(standard_alignment_positions(35) =~= seq![6int, 30int, 54int, 78int, 102int, 126int, 150int]);
    } else if version == 36 {
        assert(alignment_step(36) == 26) by {
            assert(159int / 12int == 13int) by (nonlinear_arith);
        }
        assert(alignment_count(36) == 7);
        assert(alignment_position(36, 0) == 6);
        assert(alignment_position(36, 1) == 24);
        assert(alignment_position(36, 2) == 50);
        assert(alignment_position(36, 3) == 76);
        assert(alignment_position(36, 4) == 102);
        assert(alignment_position(36, 5) == 128);
        assert(alignment_position(36, 6) == 154);
        assert(standard_alignment_positions(36) =~= seq![6int, 24int, 50int, 76int, 102int, 128int, 154int]);
    } else if version == 37 {
        assert(alignment_step(37) == 26) by {
            assert(163int / 12int == 13int) by (nonlinear_arith);
        }
        assert(alignment_count(37) == 7);
        assert(alignment_position(37, 0) == 6);
        assert(alignment_position(37, 1) == 28);
        assert(alignment_position(37, 2) == 54);
        assert(alignment_position(37, 3) == 80);
        assert(alignment_position(37, 4) == 106);
        assert(alignment_position(37, 5) == 132);
        assert(alignment_position(37, 6) == 158);
        assert(standard_alignment_positions(37) =~= seq![6int, 28int, 54int, 80int, 106int, 132int, 158int]);
    } else if version == 38 {
        assert(alignment_step(38) == 26) by {
            assert(167int / 12int == 13int) by (nonlinear_arith);
        }
        assert(alignment_count(38) == 7);
        assert(alignment_position(38, 0) == 6);
        assert(alignment_position(38, 1) == 32);
        assert(alignment_position(38, 2) == 58);
        assert(alignment_position(38, 3) == 84);
        assert(alignment_position(38, 4) == 110);
        assert(alignment_position(38, 5) == 136);
        assert(alignment_position(38, 6) == 162);
        assert(standard_alignment_positions(38) =~= seq![6int, 32int, 58int, 84int, 110int, 136int, 162int]);
    } else if version == 39 {
        assert(alignment_step(39) == 28) by {
            assert(171int / 12int == 14int) by (nonlinear_arith);
        }
        assert(alignment_count(39) == 7);
        assert(alignment_position(39, 0) == 6);
        assert(alignment_position(39, 1) == 26);
        assert(alignment_position(39, 2) == 54);
        assert(alignment_position(39, 3) == 82);
        assert(alignment_position(39, 4) == 110);
        assert(alignment_position(39, 5) == 138);
        assert(alignment_position(39, 6) == 166);
        assert(standard_alignment_positions(39) =~= seq![6int, 26int, 54int, 82int, 110int, 138int, 166int]);
    } else if version == 40 {
        assert(alignment_step(40) == 28) by {
            assert(175int / 12int == 14int) by (nonlinear_arith);
        }
        assert(alignment_count(40) == 7);
        assert(alignment_position(40, 0) == 6);
        assert(alignment_position(40, 1) == 30);
        assert(alignment_position(40, 2) == 58);
        assert(alignment_position(40, 3) == 86);
        assert(alignment_position(40, 4) == 114);
        assert(alignment_position(40, 5) == 142);
        assert(alignment_position(40, 6) == 170);
        assert(standard_alignment_positions(40) =~= seq![6int, 30int, 58int, 86int, 114int, 142int, 170int]);
    }
}

} // verus!
