//! The order in which the codeword bits are placed in the matrix: strips of
//! two columns from the right edge to the left edge, alternately upward
//! and downward, the right column of a strip before the left one, skipping
//! the vertical timing column 6 and every reserved cell.

use vstd::prelude::*;

use crate::bits::{in_grid, msb_bits};

verus! {

/// A matrix side length of a QR symbol: odd and at least 21.
pub open spec fn valid_width(w: int) -> bool {
    w >= 21 && w % 2 == 1
}

/// Number of two-column strips of a matrix of side `w`.
pub open spec fn strip_count(w: int) -> int {
    (w - 1) / 2
}

/// The right column of strip `p`; the strips left of the timing column
/// are shifted one column to the left.
pub open spec fn strip_right(w: int, p: int) -> int {
    if w - 1 - 2 * p >= 7 {
        w - 1 - 2 * p
    } else {
        w - 2 - 2 * p
    }
}

/// Whether strip `p` is walked upward (from the bottom row).
pub open spec fn strip_upward(p: int) -> bool {
    p % 2 == 0
}

/// Number of cells the placement walk visits.
pub open spec fn visit_count(w: int) -> int {
    strip_count(w) * (2 * w)
}

/// The column of visit `t`: strip `t / 2w`, right column on even `t`.
pub open spec fn visit_x(w: int, t: int) -> int {
    strip_right(w, t / (2 * w)) - (t % (2 * w)) % 2
}

/// The row of visit `t`.
pub open spec fn visit_y(w: int, t: int) -> int {
    let offset = (t % (2 * w)) / 2;
    if strip_upward(t / (2 * w)) {
        w - 1 - offset
    } else {
        offset
    }
}

/// The strip that holds column `x` (for `x != 6`).
pub open spec fn strip_of(w: int, x: int) -> int {
    if x >= 7 {
        (w - 1 - x) / 2
    } else {
        (w - 2 - x) / 2
    }
}

/// The visit that reaches cell `(x, y)` (for `x != 6`).
pub open spec fn visit_of(w: int, x: int, y: int) -> int {
    let p = strip_of(w, x);
    let dx = strip_right(w, p) - x;
    let offset = if strip_upward(p) {
        w - 1 - y
    } else {
        y
    };
    p * (2 * w) + offset * 2 + dx
}

/// Number of visits before visit `t` that land on an unreserved cell.
pub open spec fn rank(reserved: spec_fn(int, int) -> bool, w: int, t: int) -> int
    decreases t,
{
    if t <= 0 {
        0
    } else {
        rank(reserved, w, t - 1) + if reserved(visit_x(w, t - 1), visit_y(w, t - 1)) {
            0int
        } else {
            1int
        }
    }
}

/// Bit `k` of the codeword stream, most significant bit of each codeword
/// first; light past the end of the stream.
pub open spec fn stream_bit(codewords: Seq<u8>, k: int) -> bool {
    0 <= k < codewords.len() * 8 && msb_bits(codewords)[k]
}

/// The module at `(x, y)` after placement: an unreserved cell outside the
/// timing column gets the stream bit numbered by the count of unreserved
/// cells visited before it; any other cell keeps `previous`.
pub open spec fn placed_module(
    reserved: spec_fn(int, int) -> bool,
    codewords: Seq<u8>,
    w: int,
    x: int,
    y: int,
    previous: bool,
) -> bool {
    if x == 6 || reserved(x, y) {
        previous
    } else {
        stream_bit(codewords, rank(reserved, w, visit_of(w, x, y)))
    }
}

/// The walk's position from strip, row offset and column.
pub proof fn lemma_visit_decompose(w: int, p: int, offset: int, dx: int)
    requires
        valid_width(w),
        0 <= p < strip_count(w),
        0 <= offset < w,
        0 <= dx < 2,
    ensures
        0 <= p * (2 * w) + offset * 2 + dx < visit_count(w),
        visit_x(w, p * (2 * w) + offset * 2 + dx) == strip_right(w, p) - dx,
        visit_y(w, p * (2 * w) + offset * 2 + dx) == if strip_upward(p) {
            w - 1 - offset
        } else {
            offset
        },
{
    let r = offset * 2 + dx;
    let t = p * (2 * w) + r;
    vstd::arithmetic::div_mod::lemma_fundamental_div_mod_converse(t, 2 * w, p, r);
    vstd::arithmetic::div_mod::lemma_fundamental_div_mod_converse(r, 2, offset, dx);
    assert(0 <= p * (2 * w)) by (nonlinear_arith)
        requires
            0 <= p,
            0 <= w,
    ;
    assert(t < visit_count(w)) by (nonlinear_arith)
        requires
            t == p * (2 * w) + r,
            r < 2 * w,
            p + 1 <= strip_count(w),
            visit_count(w) == strip_count(w) * (2 * w),
            w > 0,
    ;
}

/// Every visit lands on a cell of the grid outside the timing column, and
/// `visit_of` gives the visit back.
pub proof fn lemma_visit_cell(w: int, t: int)
    requires
        valid_width(w),
        0 <= t < visit_count(w),
    ensures
        in_grid(w, visit_x(w, t), visit_y(w, t)),
        visit_x(w, t) != 6,
        visit_of(w, visit_x(w, t), visit_y(w, t)) == t,
{
    let p = t / (2 * w);
    let r = t % (2 * w);
    vstd::arithmetic::div_mod::lemma_fundamental_div_mod(t, 2 * w);
    assert(p < strip_count(w)) by (nonlinear_arith)
        requires
            t == (2 * w) * p + r,
            0 <= r,
            t < strip_count(w) * (2 * w),
            w > 0,
    ;
    assert(0 <= p) by (nonlinear_arith)
        requires
            t == (2 * w) * p + r,
            r < 2 * w,
            0 <= t,
            w > 0,
    ;
    let offset = r / 2;
    let dx = r % 2;
    assert(0 <= offset < w);
    lemma_visit_decompose(w, p, offset, dx);
    assert(t == p * (2 * w) + offset * 2 + dx) by (nonlinear_arith)
        requires
            t == (2 * w) * p + r,
            r == offset * 2 + dx,
    ;
    let x = strip_right(w, p) - dx;
    assert(strip_of(w, x) == p);
}

/// Every cell of the grid outside the timing column is reached by exactly
/// the visit `visit_of` names.
pub proof fn lemma_cell_visit(w: int, x: int, y: int)
    requires
        valid_width(w),
        in_grid(w, x, y),
        x != 6,
    ensures
        0 <= visit_of(w, x, y) < visit_count(w),
        visit_x(w, visit_of(w, x, y)) == x,
        visit_y(w, visit_of(w, x, y)) == y,
{
    let p = strip_of(w, x);
    let dx = strip_right(w, p) - x;
    let offset = if strip_upward(p) {
        w - 1 - y
    } else {
        y
    };
    assert(0 <= p < strip_count(w));
    assert(0 <= dx < 2);
    lemma_visit_decompose(w, p, offset, dx);
}

/// The rank of a visit is at most its number.
pub proof fn lemma_rank_bound(reserved: spec_fn(int, int) -> bool, w: int, t: int)
    requires
        0 <= t,
    ensures
        0 <= rank(reserved, w, t) <= t,
    decreases t,
{
    if t > 0 {
        lemma_rank_bound(reserved, w, t - 1);
    }
}

/// The rank of a visit depends on the reserved cells of the grid only.
pub proof fn lemma_rank_same(
    reserved1: spec_fn(int, int) -> bool,
    reserved2: spec_fn(int, int) -> bool,
    w: int,
    t: int,
)
    requires
        valid_width(w),
        0 <= t <= visit_count(w),
        forall|x: int, y: int| in_grid(w, x, y) ==> #[trigger] reserved1(x, y) == reserved2(x, y),
    ensures
        rank(reserved1, w, t) == rank(reserved2, w, t),
    decreases t,
{
    if t > 0 {
        lemma_rank_same(reserved1, reserved2, w, t - 1);
        lemma_visit_cell(w, t - 1);
    }
}

/// Ranks never decrease along the walk.
proof fn lemma_rank_monotone(reserved: spec_fn(int, int) -> bool, w: int, a: int, b: int)
    requires
        0 <= a <= b,
    ensures
        rank(reserved, w, a) <= rank(reserved, w, b),
    decreases b - a,
{
    if a < b {
        lemma_rank_monotone(reserved, w, a, b - 1);
    }
}

/// Distinct unreserved cells outside the timing column receive distinct
/// bits of the codeword stream.
pub proof fn lemma_placement_injective(
    reserved: spec_fn(int, int) -> bool,
    w: int,
    x1: int,
    y1: int,
    x2: int,
    y2: int,
)
    requires
        valid_width(w),
        in_grid(w, x1, y1),
        in_grid(w, x2, y2),
        x1 != 6,
        x2 != 6,
        !reserved(x1, y1),
        !reserved(x2, y2),
        x1 != x2 || y1 != y2,
    ensures
        rank(reserved, w, visit_of(w, x1, y1)) != rank(reserved, w, visit_of(w, x2, y2)),
{
    lemma_cell_visit(w, x1, y1);
    lemma_cell_visit(w, x2, y2);
    let t1 = visit_of(w, x1, y1);
    let t2 = visit_of(w, x2, y2);
    if t1 < t2 {
        lemma_rank_monotone(reserved, w, t1 + 1, t2);
    } else {
        assert(t2 < t1);
        lemma_rank_monotone(reserved, w, t2 + 1, t1);
    }
}

} // verus!
