//! The penalty rules of the QR standard by which a mask is chosen, over a
//! square grid of modules stored row by row.

use vstd::prelude::*;

use crate::bits::in_grid;

verus! {

/// Module `(x, y)` of a grid of side `w` stored row by row.
pub open spec fn at(g: Seq<bool>, w: int, x: int, y: int) -> bool {
    g[y * w + x]
}

/// Two grids of side `w` with the same modules.
pub open spec fn same_grid(g1: Seq<bool>, g2: Seq<bool>, w: int) -> bool {
    forall|x: int, y: int| in_grid(w, x, y) ==> #[trigger] at(g1, w, x, y) == at(g2, w, x, y)
}

/// Penalty of a run of `len` equal modules in a row or a column: `len - 2`
/// from five modules on.
pub open spec fn run_penalty(len: int) -> int {
    if len >= 5 {
        len - 2
    } else {
        0
    }
}

/// Length of the run of equal modules that ends at position `i`.
pub open spec fn run_len_at(line: Seq<bool>, i: int) -> int
    decreases i,
{
    if i > 0 && line[i - 1] == line[i] {
        run_len_at(line, i - 1) + 1
    } else {
        1
    }
}

/// Whether a run of equal modules ends at position `i`.
pub open spec fn run_ends(line: Seq<bool>, i: int) -> bool {
    i == line.len() - 1 || line[i] != line[i + 1]
}

/// Penalty of the runs that end before position `n`.
pub open spec fn line_penalty_upto(line: Seq<bool>, n: int) -> int
    decreases n,
{
    if n <= 0 {
        0
    } else {
        line_penalty_upto(line, n - 1) + if run_ends(line, n - 1) {
            run_penalty(run_len_at(line, n - 1))
        } else {
            0
        }
    }
}

/// Penalty of all runs of a line.
pub open spec fn line_penalty(line: Seq<bool>) -> int {
    line_penalty_upto(line, line.len() as int)
}

/// Row `y` of a grid.
pub open spec fn grid_row(g: Seq<bool>, w: int, y: int) -> Seq<bool> {
    Seq::new(w as nat, |x: int| at(g, w, x, y))
}

/// Column `x` of a grid.
pub open spec fn grid_column(g: Seq<bool>, w: int, x: int) -> Seq<bool> {
    Seq::new(w as nat, |y: int| at(g, w, x, y))
}

/// Run penalty of the first `n` rows.
pub open spec fn rows_penalty(g: Seq<bool>, w: int, n: int) -> int
    decreases n,
{
    if n <= 0 {
        0
    } else {
        rows_penalty(g, w, n - 1) + line_penalty(grid_row(g, w, n - 1))
    }
}

/// Run penalty of the first `n` columns.
pub open spec fn columns_penalty(g: Seq<bool>, w: int, n: int) -> int
    decreases n,
{
    if n <= 0 {
        0
    } else {
        columns_penalty(g, w, n - 1) + line_penalty(grid_column(g, w, n - 1))
    }
}

/// Whether the 2x2 block with top-left module `(x, y)` has one color.
pub open spec fn same_block(g: Seq<bool>, w: int, x: int, y: int) -> bool {
    &&& at(g, w, x + 1, y) == at(g, w, x, y)
    &&& at(g, w, x, y + 1) == at(g, w, x, y)
    &&& at(g, w, x + 1, y + 1) == at(g, w, x, y)
}

/// Penalty of the one-colored 2x2 blocks of row `y` with left column
/// before `n`: 3 each.
pub open spec fn blocks_in_row(g: Seq<bool>, w: int, y: int, n: int) -> int
    decreases n,
{
    if n <= 0 {
        0
    } else {
        blocks_in_row(g, w, y, n - 1) + if same_block(g, w, n - 1, y) {
            3int
        } else {
            0int
        }
    }
}

/// Penalty of the one-colored 2x2 blocks with top row before `n`.
pub open spec fn blocks_penalty(g: Seq<bool>, w: int, n: int) -> int
    decreases n,
{
    if n <= 0 {
        0
    } else {
        blocks_penalty(g, w, n - 1) + blocks_in_row(g, w, n - 1, w - 1)
    }
}

/// Dark-light pattern 1:1:3:1:1 followed by four light modules.
pub open spec fn finder_pattern_a() -> Seq<bool> {
    seq![true, false, true, true, true, false, true, false, false, false, false]
}

/// Four light modules followed by the dark-light pattern 1:1:3:1:1.
pub open spec fn finder_pattern_b() -> Seq<bool> {
    seq![false, false, false, false, true, false, true, true, true, false, true]
}

/// Whether eleven modules look like a finder pattern with light space on
/// one side.
pub open spec fn finder_like(bits: Seq<bool>) -> bool {
    bits == finder_pattern_a() || bits == finder_pattern_b()
}

/// The eleven modules of row `y` from column `x` on.
pub open spec fn row_window(g: Seq<bool>, w: int, x: int, y: int) -> Seq<bool> {
    Seq::new(11, |i: int| at(g, w, x + i, y))
}

/// The eleven modules of column `x` from row `y` on.
pub open spec fn column_window(g: Seq<bool>, w: int, x: int, y: int) -> Seq<bool> {
    Seq::new(11, |i: int| at(g, w, x, y + i))
}

/// Penalty of the finder-like windows of row `y` starting before column
/// `n`: 40 each.
pub open spec fn finders_in_row(g: Seq<bool>, w: int, y: int, n: int) -> int
    decreases n,
{
    if n <= 0 {
        0
    } else {
        finders_in_row(g, w, y, n - 1) + if finder_like(row_window(g, w, n - 1, y)) {
            40int
        } else {
            0int
        }
    }
}

/// Penalty of the finder-like windows of column `x` starting before row
/// `n`: 40 each.
pub open spec fn finders_in_column(g: Seq<bool>, w: int, x: int, n: int) -> int
    decreases n,
{
    if n <= 0 {
        0
    } else {
        finders_in_column(g, w, x, n - 1) + if finder_like(column_window(g, w, x, n - 1)) {
            40int
        } else {
            0int
        }
    }
}

/// Finder-like penalty of the first `n` rows.
pub open spec fn finder_rows_penalty(g: Seq<bool>, w: int, n: int) -> int
    decreases n,
{
    if n <= 0 {
        0
    } else {
        finder_rows_penalty(g, w, n - 1) + finders_in_row(g, w, n - 1, w - 10)
    }
}

/// Finder-like penalty of the first `n` columns.
pub open spec fn finder_columns_penalty(g: Seq<bool>, w: int, n: int) -> int
    decreases n,
{
    if n <= 0 {
        0
    } else {
        finder_columns_penalty(g, w, n - 1) + finders_in_column(g, w, n - 1, w - 10)
    }
}

/// Number of dark modules of row `y` before column `n`.
pub open spec fn dark_in_row(g: Seq<bool>, w: int, y: int, n: int) -> int
    decreases n,
{
    if n <= 0 {
        0
    } else {
        dark_in_row(g, w, y, n - 1) + if at(g, w, n - 1, y) {
            1int
        } else {
            0int
        }
    }
}

/// Number of dark modules of the first `n` rows.
pub open spec fn dark_count(g: Seq<bool>, w: int, n: int) -> int
    decreases n,
{
    if n <= 0 {
        0
    } else {
        dark_count(g, w, n - 1) + dark_in_row(g, w, n - 1, w)
    }
}

/// Penalty of the dark/light imbalance: 10 for each whole 5% by which the
/// share of dark modules differs from one half.
pub open spec fn balance_penalty(g: Seq<bool>, w: int) -> int {
    let dark = dark_count(g, w, w);
    let total = w * w;
    let diff = if 20 * dark >= 10 * total {
        20 * dark - 10 * total
    } else {
        10 * total - 20 * dark
    };
    (diff / total) * 10
}

/// The total penalty of a grid of side `w`.
pub open spec fn penalty_score(g: Seq<bool>, w: int) -> int {
    rows_penalty(g, w, w) + columns_penalty(g, w, w) + blocks_penalty(g, w, w - 1)
        + finder_rows_penalty(g, w, w) + finder_columns_penalty(g, w, w) + balance_penalty(g, w)
}

/// The row and column penalties depend on the modules of the grid only.
proof fn lemma_lines_same(g1: Seq<bool>, g2: Seq<bool>, w: int, n: int)
    requires
        same_grid(g1, g2, w),
        0 <= n <= w,
    ensures
        rows_penalty(g1, w, n) == rows_penalty(g2, w, n),
        columns_penalty(g1, w, n) == columns_penalty(g2, w, n),
    decreases n,
{
    if n > 0 {
        lemma_lines_same(g1, g2, w, n - 1);
        assert(grid_row(g1, w, n - 1) =~= grid_row(g2, w, n - 1)) by {
            assert forall|x: int| 0 <= x < w implies #[trigger] at(g1, w, x, n - 1) == at(g2, w, x, n - 1) by {
                assert(in_grid(w, x, n - 1));
            }
        }
        assert(grid_column(g1, w, n - 1) =~= grid_column(g2, w, n - 1)) by {
            assert forall|y: int| 0 <= y < w implies #[trigger] at(g1, w, n - 1, y) == at(g2, w, n - 1, y) by {
                assert(in_grid(w, n - 1, y));
            }
        }
    }
}

/// The block penalty of a row depends on the modules of the grid only.
proof fn lemma_blocks_row_same(g1: Seq<bool>, g2: Seq<bool>, w: int, y: int, n: int)
    requires
        same_grid(g1, g2, w),
        0 <= y < w - 1,
        0 <= n <= w - 1,
    ensures
        blocks_in_row(g1, w, y, n) == blocks_in_row(g2, w, y, n),
    decreases n,
{
    if n > 0 {
        lemma_blocks_row_same(g1, g2, w, y, n - 1);
        assert(in_grid(w, n - 1, y) && in_grid(w, n, y) && in_grid(w, n - 1, y + 1) && in_grid(
            w,
            n,
            y + 1,
        ));
        assert(at(g1, w, n - 1, y) == at(g2, w, n - 1, y));
        assert(at(g1, w, n, y) == at(g2, w, n, y));
        assert(at(g1, w, n - 1, y + 1) == at(g2, w, n - 1, y + 1));
        assert(at(g1, w, n, y + 1) == at(g2, w, n, y + 1));
    }
}

/// The block penalty depends on the modules of the grid only.
proof fn lemma_blocks_same(g1: Seq<bool>, g2: Seq<bool>, w: int, n: int)
    requires
        same_grid(g1, g2, w),
        0 <= n <= w - 1,
    ensures
        blocks_penalty(g1, w, n) == blocks_penalty(g2, w, n),
    decreases n,
{
    if n > 0 {
        lemma_blocks_same(g1, g2, w, n - 1);
        lemma_blocks_row_same(g1, g2, w, n - 1, w - 1);
    }
}

/// The finder-like penalty of a row and of a column depends on the modules
/// of the grid only.
proof fn lemma_finders_line_same(g1: Seq<bool>, g2: Seq<bool>, w: int, k: int, n: int)
    requires
        same_grid(g1, g2, w),
        0 <= k < w,
        0 <= n <= w - 10,
    ensures
        finders_in_row(g1, w, k, n) == finders_in_row(g2, w, k, n),
        finders_in_column(g1, w, k, n) == finders_in_column(g2, w, k, n),
    decreases n,
{
    if n > 0 {
        lemma_finders_line_same(g1, g2, w, k, n - 1);
        assert(row_window(g1, w, n - 1, k) =~= row_window(g2, w, n - 1, k)) by {
            assert forall|i: int| 0 <= i < 11 implies #[trigger] at(g1, w, n - 1 + i, k) == at(
                g2,
                w,
                n - 1 + i,
                k,
            ) by {
                assert(in_grid(w, n - 1 + i, k));
            }
        }
        assert(column_window(g1, w, k, n - 1) =~= column_window(g2, w, k, n - 1)) by {
            assert forall|i: int| 0 <= i < 11 implies #[trigger] at(g1, w, k, n - 1 + i) == at(
                g2,
                w,
                k,
                n - 1 + i,
            ) by {
                assert(in_grid(w, k, n - 1 + i));
            }
        }
    }
}

/// The finder-like penalties depend on the modules of the grid only.
proof fn lemma_finders_same(g1: Seq<bool>, g2: Seq<bool>, w: int, n: int)
    requires
        same_grid(g1, g2, w),
        10 <= w,
        0 <= n <= w,
    ensures
        finder_rows_penalty(g1, w, n) == finder_rows_penalty(g2, w, n),
        finder_columns_penalty(g1, w, n) == finder_columns_penalty(g2, w, n),
    decreases n,
{
    if n > 0 {
        lemma_finders_same(g1, g2, w, n - 1);
        lemma_finders_line_same(g1, g2, w, n - 1, w - 10);
    }
}

/// The dark count of a row depends on the modules of the grid only.
proof fn lemma_dark_row_same(g1: Seq<bool>, g2: Seq<bool>, w: int, y: int, n: int)
    requires
        same_grid(g1, g2, w),
        0 <= y < w,
        0 <= n <= w,
    ensures
        dark_in_row(g1, w, y, n) == dark_in_row(g2, w, y, n),
    decreases n,
{
    if n > 0 {
        lemma_dark_row_same(g1, g2, w, y, n - 1);
        assert(in_grid(w, n - 1, y));
    }
}

/// The dark count depends on the modules of the grid only.
proof fn lemma_dark_same(g1: Seq<bool>, g2: Seq<bool>, w: int, n: int)
    requires
        same_grid(g1, g2, w),
        0 <= n <= w,
    ensures
        dark_count(g1, w, n) == dark_count(g2, w, n),
    decreases n,
{
    if n > 0 {
        lemma_dark_same(g1, g2, w, n - 1);
        lemma_dark_row_same(g1, g2, w, n - 1, w);
    }
}

/// Two grids with the same modules have the same penalty.
pub proof fn lemma_penalty_same_grid(g1: Seq<bool>, g2: Seq<bool>, w: int)
    requires
        same_grid(g1, g2, w),
        11 <= w,
    ensures
        penalty_score(g1, w) == penalty_score(g2, w),
{
    lemma_lines_same(g1, g2, w, w);
    lemma_blocks_same(g1, g2, w, w - 1);
    lemma_finders_same(g1, g2, w, w);
    lemma_dark_same(g1, g2, w, w);
}

} // verus!
