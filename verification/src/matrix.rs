//! The final QR matrix: the codewords placed around the function patterns,
//! the mask with the lowest penalty applied, and the format information
//! drawn.

use core::marker::PhantomData;

use vstd::prelude::*;

use crate::bits::{
    cell, get_bit, grid_buffer, in_grid, lemma_cell_update, lemma_grid_buffer_ext, lsb_bits,
    msb_bits, set_bit, tail_kept,
};
use crate::drawable::QrDrawable;
use crate::matrix_template::{
    alignment_count, alignment_position, build_version_matrix_templates, paint, template_value,
    width_of,
};
use crate::penalty::{
    at, balance_penalty, blocks_in_row, blocks_penalty, column_window, columns_penalty, dark_count,
    dark_in_row, finder_columns_penalty, finder_like, finder_pattern_a, finder_pattern_b,
    finder_rows_penalty, finders_in_column, finders_in_row, grid_column, grid_row, line_penalty,
    lemma_penalty_same_grid, line_penalty_upto, penalty_score, row_window, rows_penalty, run_len_at, run_penalty,
};
use crate::placement::{
    lemma_cell_visit, lemma_rank_bound, lemma_visit_cell, lemma_visit_decompose, placed_module,
    rank, stream_bit, strip_count, strip_right, strip_upward, valid_width, visit_count, visit_of,
    visit_x, visit_y,
};
use crate::types::{format_word, mask_at, mask_condition, mask_index, EccLevel, Mask};
use crate::version::Version;

verus! {

/// A fully encoded QR code matrix.
///
/// The matrix stores only the QR modules themselves. Quiet-zone handling and
/// any visual rendering are expected to be done by the caller.
#[derive(Debug)]
pub struct QrMatrix<T: Version> {
    buffer: Vec<u8>,
    ecc_level: EccLevel,
    mask: Mask,
    _marker: PhantomData<T>,
}

/// Bit `index` (0 = least significant) of a 16-bit word.
pub open spec fn word_bit(bits: u16, index: int) -> bool {
    (bits >> (index as u16)) & 1u16 == 1u16
}


/// The module value after masking: the mask inverts an unreserved module
/// where its condition holds.
pub open spec fn mask_module(reserved: bool, mask: Mask, x: int, y: int, value: bool) -> bool {
    if !reserved && mask_condition(mask, x, y) {
        !value
    } else {
        value
    }
}

/// Applying a mask twice gives back the module value.
pub proof fn lemma_mask_twice(reserved: bool, mask: Mask, x: int, y: int, value: bool)
    ensures
        mask_module(reserved, mask, x, y, mask_module(reserved, mask, x, y, value)) == value,
{
}

/// The cells of both copies of the 15-bit format information `bits` and
/// the dark module, in a matrix of side `w`. Near the top-left finder,
/// bits 0-5 run down column 8, bits 6-8 turn the corner at (8, 7), (8, 8)
/// and (7, 8), and bits 9-14 run left along row 8. In the second copy,
/// bits 0-7 run left along row 8 from the right edge and bits 8-14 run
/// down column 8 to the bottom edge.
pub open spec fn format_value(w: int, bits: u16, x: int, y: int) -> Option<bool> {
    if x == 8 && 0 <= y <= 5 {
        Some(word_bit(bits, y))
    } else if x == 8 && y == 7 {
        Some(word_bit(bits, 6))
    } else if x == 8 && y == 8 {
        Some(word_bit(bits, 7))
    } else if x == 7 && y == 8 {
        Some(word_bit(bits, 8))
    } else if y == 8 && 0 <= x <= 5 {
        Some(word_bit(bits, 14 - x))
    } else if y == 8 && w - 8 <= x <= w - 1 {
        Some(word_bit(bits, w - 1 - x))
    } else if x == 8 && w - 7 <= y <= w - 1 {
        Some(word_bit(bits, y - (w - 15)))
    } else if x == 8 && y == w - 8 {
        Some(true)
    } else {
        None
    }
}

/// The format cells drawn by the first `index` steps of stage `stage` of
/// `draw_format_bits` (and all steps of the earlier stages).
pub open spec fn format_upto(w: int, bits: u16, stage: int, index: int, x: int, y: int) -> Option<
    bool,
> {
    let first = if stage == 0 {
        index
    } else {
        6
    };
    if x == 8 && 0 <= y < first {
        Some(word_bit(bits, y))
    } else if stage >= 1 && x == 8 && y == 7 {
        Some(word_bit(bits, 6))
    } else if stage >= 1 && x == 8 && y == 8 {
        Some(word_bit(bits, 7))
    } else if stage >= 1 && x == 7 && y == 8 {
        Some(word_bit(bits, 8))
    } else if stage >= 1 && y == 8 && 0 <= x <= 5 && 14 - x < (if stage == 1 {
        index
    } else {
        15
    }) {
        Some(word_bit(bits, 14 - x))
    } else if stage >= 2 && y == 8 && w - 8 <= x <= w - 1 && w - 1 - x < (if stage == 2 {
        index
    } else {
        8
    }) {
        Some(word_bit(bits, w - 1 - x))
    } else if stage >= 3 && x == 8 && w - 7 <= y <= w - 1 && y - (w - 15) < (if stage == 3 {
        index
    } else {
        15
    }) {
        Some(word_bit(bits, y - (w - 15)))
    } else if stage >= 4 && x == 8 && y == w - 8 {
        Some(true)
    } else {
        None
    }
}

/// Whether `(x, y)` belongs to a function pattern of `version`.
pub open spec fn function_cell(version: int, x: int, y: int) -> bool {
    template_value(version, x, y) is Some
}

/// The module of `version` at `(x, y)` once the codewords are placed
/// around the function patterns, before masking.
pub open spec fn data_module(version: int, codewords: Seq<u8>, x: int, y: int) -> bool {
    placed_module(
        |x2: int, y2: int| function_cell(version, x2, y2),
        codewords,
        width_of(version),
        x,
        y,
        template_value(version, x, y) == Some(true),
    )
}

/// The module of the symbol of `version` holding `codewords`, masked with
/// `mask`, with the format information of `level` and `mask`.
pub open spec fn symbol_module(
    version: int,
    codewords: Seq<u8>,
    level: EccLevel,
    mask: Mask,
    x: int,
    y: int,
) -> bool {
    paint(
        format_value(width_of(version), format_word(level, mask), x, y),
        mask_module(function_cell(version, x, y), mask, x, y, data_module(version, codewords, x, y)),
    )
}

/// The modules of that symbol, row by row.
pub open spec fn symbol_grid(version: int, codewords: Seq<u8>, level: EccLevel, mask: Mask) -> Seq<
    bool,
> {
    let w = width_of(version);
    Seq::new((w * w) as nat, |i: int| symbol_module(version, codewords, level, mask, i % w, i / w))
}

/// The penalty of that symbol.
pub open spec fn mask_penalty(version: int, codewords: Seq<u8>, level: EccLevel, mask: Mask) -> int {
    penalty_score(symbol_grid(version, codewords, level, mask), width_of(version))
}

/// The first of the masks numbered below `n` with the lowest penalty.
pub open spec fn best_mask_upto(version: int, codewords: Seq<u8>, level: EccLevel, n: int) -> Mask
    decreases n,
{
    if n <= 1 {
        Mask::M0
    } else {
        let best = best_mask_upto(version, codewords, level, n - 1);
        if mask_penalty(version, codewords, level, mask_at(n - 1)) < mask_penalty(
            version,
            codewords,
            level,
            best,
        ) {
            mask_at(n - 1)
        } else {
            best
        }
    }
}

/// The first of the eight masks with the lowest penalty.
pub open spec fn best_mask(version: int, codewords: Seq<u8>, level: EccLevel) -> Mask {
    best_mask_upto(version, codewords, level, 8)
}

/// The mask `best_mask_upto` picks among the first `n` masks has the
/// lowest penalty among them, and every mask before it a higher one.
proof fn lemma_best_mask_upto(version: int, codewords: Seq<u8>, level: EccLevel, n: int)
    requires
        1 <= n <= 8,
    ensures
        0 <= mask_index(best_mask_upto(version, codewords, level, n)) < n,
        forall|k: int|
            0 <= k < n ==> mask_penalty(version, codewords, level, best_mask_upto(version, codewords, level, n))
                <= #[trigger] mask_penalty(version, codewords, level, mask_at(k)),
        forall|k: int|
            0 <= k < mask_index(best_mask_upto(version, codewords, level, n)) ==> mask_penalty(
                version,
                codewords,
                level,
                best_mask_upto(version, codewords, level, n),
            ) < #[trigger] mask_penalty(version, codewords, level, mask_at(k)),
    decreases n,
{
    if n > 1 {
        lemma_best_mask_upto(version, codewords, level, n - 1);
        let prev = best_mask_upto(version, codewords, level, n - 1);
        assert(mask_at(mask_index(prev)) == prev);
        assert(mask_index(mask_at(n - 1)) == n - 1);
    } else {
        assert(mask_at(0) == Mask::M0);
    }
}

/// The chosen mask has the lowest penalty of the eight masks, and every
/// mask numbered before it has a higher penalty.
pub proof fn lemma_best_mask_is_first_minimum(version: int, codewords: Seq<u8>, level: EccLevel)
    ensures
        forall|k: int|
            0 <= k < 8 ==> mask_penalty(version, codewords, level, best_mask(version, codewords, level))
                <= #[trigger] mask_penalty(version, codewords, level, mask_at(k)),
        forall|k: int|
            0 <= k < mask_index(best_mask(version, codewords, level)) ==> mask_penalty(
                version,
                codewords,
                level,
                best_mask(version, codewords, level),
            ) < #[trigger] mask_penalty(version, codewords, level, mask_at(k)),
{
    lemma_best_mask_upto(version, codewords, level, 8);
}

/// Data and mask leave the function patterns alone: outside the format
/// cells, every function-pattern module of a symbol is the template's.
pub proof fn lemma_function_patterns_kept(
    version: int,
    codewords: Seq<u8>,
    level: EccLevel,
    mask: Mask,
    x: int,
    y: int,
)
    requires
        function_cell(version, x, y),
        format_value(width_of(version), format_word(level, mask), x, y) is None,
    ensures
        symbol_module(version, codewords, level, mask, x, y) == (template_value(version, x, y)
            == Some(true)),
{
}

/// Whether `after` is `before` masked with `mask` around the reserved
/// cells of `reserved`, in a grid of side `w`: the mask inverts the
/// unreserved modules where its condition holds, and every other bit of
/// the buffer stays.
pub open spec fn masked_buffer(
    before: Seq<u8>,
    after: Seq<u8>,
    reserved: Seq<u8>,
    mask: Mask,
    w: int,
) -> bool {
    &&& after.len() == before.len()
    &&& forall|x: int, y: int|
        in_grid(w, x, y) ==> #[trigger] cell(after, w, x, y) == mask_module(
            cell(reserved, w, x, y),
            mask,
            x,
            y,
            cell(before, w, x, y),
        )
    &&& tail_kept(before, after, w)
}

/// Masking a grid buffer twice with the same mask gives back the whole
/// buffer.
pub proof fn lemma_mask_twice_restores_buffer(
    m0: Seq<u8>,
    m1: Seq<u8>,
    m2: Seq<u8>,
    reserved: Seq<u8>,
    mask: Mask,
    w: int,
)
    requires
        grid_buffer(m0, w),
        masked_buffer(m0, m1, reserved, mask, w),
        masked_buffer(m1, m2, reserved, mask, w),
    ensures
        m2 == m0,
{
    assert forall|x: int, y: int| in_grid(w, x, y) implies #[trigger] cell(m0, w, x, y) == cell(
        m2,
        w,
        x,
        y,
    ) by {
        assert(cell(m1, w, x, y) == mask_module(cell(reserved, w, x, y), mask, x, y, cell(m0, w, x, y)));
        lemma_mask_twice(cell(reserved, w, x, y), mask, x, y, cell(m0, w, x, y));
    }
    assert forall|i: int| w * w <= i < m0.len() * 8 implies #[trigger] lsb_bits(m2)[i] == lsb_bits(
        m0,
    )[i] by {
        assert(lsb_bits(m1)[i] == lsb_bits(m0)[i]);
    }
    lemma_grid_buffer_ext(m0, m2, w);
}

/// The format cells and the dark module belong to the function patterns.
proof fn lemma_format_cells_reserved(version: int, bits: u16, x: int, y: int)
    requires
        1 <= version <= 40,
        format_value(width_of(version), bits, x, y) is Some,
    ensures
        function_cell(version, x, y),
{
}

/// A grid buffer whose cells follow `symbol_module` has the penalty of
/// `symbol_grid`.
proof fn lemma_symbol_grid_penalty(
    buf: Seq<u8>,
    version: int,
    codewords: Seq<u8>,
    level: EccLevel,
    mask: Mask,
)
    requires
        1 <= version <= 40,
        grid_buffer(buf, width_of(version)),
        forall|x: int, y: int|
            in_grid(width_of(version), x, y) ==> #[trigger] cell(buf, width_of(version), x, y)
                == symbol_module(version, codewords, level, mask, x, y),
    ensures
        penalty_score(lsb_bits(buf), width_of(version)) == mask_penalty(
            version,
            codewords,
            level,
            mask,
        ),
{
    let w = width_of(version);
    let g = symbol_grid(version, codewords, level, mask);
    assert forall|x: int, y: int| in_grid(w, x, y) implies #[trigger] at(lsb_bits(buf), w, x, y)
        == at(g, w, x, y) by {
        crate::bits::lemma_cell_index(w, x, y, x, y);
        vstd::arithmetic::div_mod::lemma_fundamental_div_mod_converse(y * w + x, w, y, x);
        assert(cell(buf, w, x, y) == symbol_module(version, codewords, level, mask, x, y));
    }
    lemma_penalty_same_grid(lsb_bits(buf), g, w);
}

impl<T: Version> QrMatrix<T> {
    /// The side length of the matrix.
    pub open spec fn spec_width() -> int {
        width_of(T::spec_version() as int)
    }

    #[verifier::type_invariant]
    closed spec fn wf(self) -> bool {
        grid_buffer(self.buffer@, Self::spec_width())
    }

    /// Whether the module at `(x, y)` is dark.
    pub closed spec fn module(self, x: int, y: int) -> bool {
        cell(self.buffer@, Self::spec_width(), x, y)
    }

    /// The ECC level of the matrix.
    pub closed spec fn spec_ecc_level(self) -> EccLevel {
        self.ecc_level
    }

    /// The mask pattern of the matrix.
    pub closed spec fn spec_mask(self) -> Mask {
        self.mask
    }

    /// Builds the matrix of the final codeword sequence `codewords` at
    /// `level`: the codewords placed around the function patterns of `T`,
    /// the first of the eight masks with the lowest penalty applied, and
    /// the format information drawn.
    pub fn from_codewords(codewords: &[u8], level: EccLevel) -> (r: Self)
        requires
            codewords@.len() * 8 <= usize::MAX,
        ensures
            r.spec_ecc_level() == level,
            r.spec_mask() == best_mask(T::spec_version() as int, codewords@, level),
            forall|x: int, y: int|
                in_grid(Self::spec_width(), x, y) ==> #[trigger] r.module(x, y) == symbol_module(
                    T::spec_version() as int,
                    codewords@,
                    level,
                    r.spec_mask(),
                    x,
                    y,
                ),
    {
        let width = T::width();
        let ghost w = width as int;
        let ghost v = T::spec_version() as int;
        let templates = build_version_matrix_templates::<T>();
        let mut buffer = templates.modules;
        let reserved = templates.reserved;
        proof {
            assert(((w * w + 7) / 8) * 8 >= w * w) by (nonlinear_arith);
            assert(valid_width(w));
        }
        let ghost before = buffer@;
        Self::place_data(&mut buffer, reserved.as_slice(), codewords);
        proof {
            assert forall|x: int, y: int| in_grid(w, x, y) implies #[trigger] cell(buffer@, w, x, y)
                == data_module(v, codewords@, x, y) by {
                let res = |x2: int, y2: int| cell(reserved@, w, x2, y2);
                let fun = |x2: int, y2: int| function_cell(v, x2, y2);
                assert(forall|x2: int, y2: int| in_grid(w, x2, y2) ==> #[trigger] res(x2, y2) == fun(x2, y2));
                if x != 6 {
                    lemma_cell_visit(w, x, y);
                    crate::placement::lemma_rank_same(res, fun, w, visit_of(w, x, y));
                }
            }
        }
        let mut best_score: usize = usize::MAX;
        let mut best_mask = Mask::M0;
        let mut index: usize = 0;
        while index < 8
            invariant
                w == width as int,
                w == Self::spec_width(),
                v == T::spec_version() as int,
                1 <= v <= 40,
                21 <= width <= 177,
                index <= 8,
                grid_buffer(buffer@, w),
                grid_buffer(reserved@, w),
                forall|x: int, y: int|
                    in_grid(w, x, y) ==> #[trigger] cell(reserved@, w, x, y) == function_cell(v, x, y),
                forall|x: int, y: int|
                    in_grid(w, x, y) && format_value(w, 0, x, y) is None ==> #[trigger] cell(
                        buffer@,
                        w,
                        x,
                        y,
                    ) == data_module(v, codewords@, x, y),
                index == 0 ==> best_score == usize::MAX,
                index > 0 ==> best_mask == best_mask_upto(v, codewords@, level, index as int)
                    && best_score == mask_penalty(v, codewords@, level, best_mask),
            decreases 8 - index,
        {
            let mask = Mask::from_index(index);
            let ghost b0 = buffer@;
            Self::apply_mask(&mut buffer, reserved.as_slice(), mask);
            let ghost b1 = buffer@;
            Self::draw_format_bits(&mut buffer, level, mask);
            proof {
                assert forall|x: int, y: int| in_grid(w, x, y) implies #[trigger] cell(buffer@, w, x, y)
                    == symbol_module(v, codewords@, level, mask, x, y) by {
                    assert(cell(b1, w, x, y) == mask_module(
                        cell(reserved@, w, x, y),
                        mask,
                        x,
                        y,
                        cell(b0, w, x, y),
                    ));
                    if format_value(w, format_word(level, mask), x, y) is Some {
                        lemma_format_cells_reserved(v, format_word(level, mask), x, y);
                    } else {
                        assert(format_value(w, 0, x, y) is None);
                    }
                }
                lemma_symbol_grid_penalty(buffer@, v, codewords@, level, mask);
            }
            let score = Self::penalty_score(buffer.as_slice());
            if score < best_score {
                best_score = score;
                best_mask = mask;
            }
            let ghost b2 = buffer@;
            Self::apply_mask(&mut buffer, reserved.as_slice(), mask);
            proof {
                assert forall|x: int, y: int|
                    in_grid(w, x, y) && format_value(w, 0, x, y) is None implies #[trigger] cell(
                    buffer@,
                    w,
                    x,
                    y,
                ) == data_module(v, codewords@, x, y) by {
                    assert(cell(b1, w, x, y) == mask_module(
                        cell(reserved@, w, x, y),
                        mask,
                        x,
                        y,
                        cell(b0, w, x, y),
                    ));
                    assert(format_value(w, format_word(level, mask), x, y) is None);
                    assert(cell(b2, w, x, y) == cell(b1, w, x, y));
                    lemma_mask_twice(cell(reserved@, w, x, y), mask, x, y, cell(b0, w, x, y));
                }
            }
            index = index + 1;
        }
        let ghost b0 = buffer@;
        Self::apply_mask(&mut buffer, reserved.as_slice(), best_mask);
        let ghost b1 = buffer@;
        Self::draw_format_bits(&mut buffer, level, best_mask);
        proof {
            assert forall|x: int, y: int| in_grid(w, x, y) implies #[trigger] cell(buffer@, w, x, y)
                == symbol_module(v, codewords@, level, best_mask, x, y) by {
                assert(cell(b1, w, x, y) == mask_module(
                    cell(reserved@, w, x, y),
                    best_mask,
                    x,
                    y,
                    cell(b0, w, x, y),
                ));
                if format_value(w, format_word(level, best_mask), x, y) is Some {
                    lemma_format_cells_reserved(v, format_word(level, best_mask), x, y);
                } else {
                    assert(format_value(w, 0, x, y) is None);
                }
            }
        }
        Self { buffer, ecc_level: level, mask: best_mask, _marker: PhantomData }
    }

    /// Returns the side length of the QR matrix in modules.
    pub fn width(&self) -> (r: usize)
        ensures
            r == Self::spec_width(),
    {
        T::width()
    }

    /// Returns whether the module at `(x, y)` is dark.
    ///
    /// Coordinates are zero-based and must stay within the matrix bounds.
    pub fn get(&self, x: usize, y: usize) -> (r: bool)
        requires
            x < Self::spec_width(),
            y < Self::spec_width(),
        ensures
            r == self.module(x as int, y as int),
    {
        proof {
            use_type_invariant(self);
        }
        Self::get_module(self.buffer.as_slice(), x, y)
    }

    /// Returns the ECC level used for this matrix.
    pub fn ecc_level(&self) -> (r: EccLevel)
        ensures
            r == self.spec_ecc_level(),
    {
        self.ecc_level
    }

    /// Returns the mask pattern chosen for this matrix.
    pub fn mask(&self) -> (r: Mask)
        ensures
            r == self.spec_mask(),
    {
        self.mask
    }

    /// Iterates over all modules in row-major order.
    pub fn iter(&self) -> (r: QrMatrixIter<'_, T>)
        ensures
            r.matrix() == *self,
            r.position() == 0,
    {
        QrMatrixIter { matrix: self, x: 0, y: 0 }
    }

    /// A drawable of this matrix with the given colors, modules of one
    /// pixel and no quiet-zone border.
    pub fn into_drawable<C: Copy>(&self, dark_color: C, light_color: C) -> (r: QrDrawable<'_, T, C>)
        ensures
            r.spec_matrix() == *self,
            r.spec_dark_color() == dark_color,
            r.spec_light_color() == light_color,
            r.spec_module_size() == 1,
            r.spec_border() == 0,
    {
        QrDrawable::new(self, dark_color, light_color)
    }

    /// Returns the alignment pattern coordinates of version `T` and how many
    /// there are; unused entries are zero.
    pub fn alignment_pattern_positions() -> (r: ([usize; 7], usize))
        ensures
            r.1 == alignment_count(T::spec_version() as int),
            forall|i: int|
                0 <= i < r.1 ==> r.0[i] == alignment_position(T::spec_version() as int, i),
            forall|i: int| r.1 <= i < 7 ==> r.0[i] == 0,
    {
        crate::matrix_template::alignment_pattern_positions(T::version())
    }

    /// Sets the module at `(x, y)` of a grid buffer.
    fn set_module(modules: &mut Vec<u8>, x: usize, y: usize, is_black: bool)
        requires
            grid_buffer(old(modules)@, Self::spec_width()),
            in_grid(Self::spec_width(), x as int, y as int),
        ensures
            final(modules)@.len() == old(modules)@.len(),
            forall|x2: int, y2: int|
                in_grid(Self::spec_width(), x2, y2) ==> #[trigger] cell(
                    final(modules)@,
                    Self::spec_width(),
                    x2,
                    y2,
                ) == if x2 == x && y2 == y {
                    is_black
                } else {
                    cell(old(modules)@, Self::spec_width(), x2, y2)
                },
            tail_kept(old(modules)@, final(modules)@, Self::spec_width()),
    {
        let width = T::width();
        let ghost w = width as int;
        proof {
            crate::bits::lemma_cell_index(w, x as int, y as int, x as int, y as int);
            assert(width * width <= 177 * 177) by (nonlinear_arith)
                requires
                    width <= 177,
            ;
            assert(y * width <= width * width) by (nonlinear_arith)
                requires
                    y < width,
            ;
        }
        let ghost before = modules@;
        set_bit(modules, y * width + x, is_black);
        proof {
            lemma_cell_update(before, modules@, w, x as int, y as int, is_black);
            assert forall|i: int| w * w <= i < before.len() * 8 implies #[trigger] lsb_bits(
                modules@,
            )[i] == lsb_bits(before)[i] by {
                assert(i != y * w + x);
            }
        }
    }

    /// Returns whether the module at `(x, y)` of a grid buffer is dark.
    fn get_module(modules: &[u8], x: usize, y: usize) -> (r: bool)
        requires
            grid_buffer(modules@, Self::spec_width()),
            in_grid(Self::spec_width(), x as int, y as int),
        ensures
            r == cell(modules@, Self::spec_width(), x as int, y as int),
    {
        let width = T::width();
        proof {
            crate::bits::lemma_cell_index(width as int, x as int, y as int, x as int, y as int);
            assert(width * width <= 177 * 177) by (nonlinear_arith)
                requires
                    width <= 177,
            ;
            assert(y * width <= width * width) by (nonlinear_arith)
                requires
                    y < width,
            ;
        }
        get_bit(modules, y * width + x)
    }

    /// Returns whether the cell at `(x, y)` belongs to a function pattern.
    fn is_reserved(reserved: &[u8], x: usize, y: usize) -> (r: bool)
        requires
            grid_buffer(reserved@, Self::spec_width()),
            in_grid(Self::spec_width(), x as int, y as int),
        ensures
            r == cell(reserved@, Self::spec_width(), x as int, y as int),
    {
        Self::get_module(reserved, x, y)
    }

    /// Returns bit `bit_index` of the codeword stream, most significant bit
    /// of each codeword first.
    fn get_codeword_bit(codewords: &[u8], bit_index: usize) -> (r: bool)
        requires
            bit_index < codewords@.len() * 8,
        ensures
            r == msb_bits(codewords@)[bit_index as int],
    {
        proof {
            crate::bits::lemma_index_split(bit_index);
        }
        let byte = codewords[bit_index >> 3];
        let offset = (7 - (bit_index & 0x07)) as u8;
        let r = ((byte >> offset) & 1) != 0;
        assert(r == ((byte >> offset) & 1u8 == 1u8)) by (bit_vector)
            requires
                r == (((byte >> offset) & 1u8) != 0u8),
        ;
        r
    }

    /// Returns bit `index` of a format information word.
    pub fn get_format_bit(bits: u16, index: usize) -> (r: bool)
        requires
            index < 16,
        ensures
            r == word_bit(bits, index as int),
    {
        let shift = index as u16;
        let r = ((bits >> shift) & 1) != 0;
        assert(r == ((bits >> shift) & 1u16 == 1u16)) by (bit_vector)
            requires
                r == (((bits >> shift) & 1u16) != 0u16),
        ;
        r
    }

    /// Inverts every unreserved module where the condition of `mask` holds.
    fn apply_mask(modules: &mut Vec<u8>, reserved: &[u8], mask: Mask)
        requires
            grid_buffer(old(modules)@, Self::spec_width()),
            grid_buffer(reserved@, Self::spec_width()),
        ensures
            final(modules)@.len() == old(modules)@.len(),
            forall|x: int, y: int|
                in_grid(Self::spec_width(), x, y) ==> #[trigger] cell(
                    final(modules)@,
                    Self::spec_width(),
                    x,
                    y,
                ) == mask_module(
                    cell(reserved@, Self::spec_width(), x, y),
                    mask,
                    x,
                    y,
                    cell(old(modules)@, Self::spec_width(), x, y),
                ),
            tail_kept(old(modules)@, final(modules)@, Self::spec_width()),
            masked_buffer(old(modules)@, final(modules)@, reserved@, mask, Self::spec_width()),
    {
        let width = T::width();
        let ghost w = width as int;
        let ghost m0 = modules@;
        let mut y: usize = 0;
        while y < width
            invariant
                w == width as int,
                w == Self::spec_width(),
                21 <= width <= 177,
                y <= width,
                grid_buffer(m0, w),
                grid_buffer(reserved@, w),
                modules@.len() == m0.len(),
                tail_kept(m0, modules@, w),
                forall|x2: int, y2: int|
                    in_grid(w, x2, y2) ==> #[trigger] cell(modules@, w, x2, y2) == if y2 < y {
                        mask_module(cell(reserved@, w, x2, y2), mask, x2, y2, cell(m0, w, x2, y2))
                    } else {
                        cell(m0, w, x2, y2)
                    },
            decreases width - y,
        {
            let mut x: usize = 0;
            while x < width
                invariant
                    w == width as int,
                    w == Self::spec_width(),
                    21 <= width <= 177,
                    y < width,
                    x <= width,
                    grid_buffer(m0, w),
                    grid_buffer(reserved@, w),
                    modules@.len() == m0.len(),
                    tail_kept(m0, modules@, w),
                    forall|x2: int, y2: int|
                        in_grid(w, x2, y2) ==> #[trigger] cell(modules@, w, x2, y2) == if y2 < y || (
                        y2 == y && x2 < x) {
                            mask_module(
                                cell(reserved@, w, x2, y2),
                                mask,
                                x2,
                                y2,
                                cell(m0, w, x2, y2),
                            )
                        } else {
                            cell(m0, w, x2, y2)
                        },
                decreases width - x,
            {
                assert(x * y <= 177 * 177) by (nonlinear_arith)
                    requires
                        x < 177,
                        y < 177,
                ;
                let ghost before = modules@;
                if !Self::is_reserved(reserved, x, y) && mask.applies(x, y) {
                    let value = !Self::get_module(modules, x, y);
                    Self::set_module(modules, x, y, value);
                }
                proof {
                    assert forall|x2: int, y2: int| in_grid(w, x2, y2) implies #[trigger] cell(
                        modules@,
                        w,
                        x2,
                        y2,
                    ) == if y2 < y || (y2 == y && x2 < x + 1) {
                        mask_module(cell(reserved@, w, x2, y2), mask, x2, y2, cell(m0, w, x2, y2))
                    } else {
                        cell(m0, w, x2, y2)
                    } by {
                        assert(cell(before, w, x2, y2) == if y2 < y || (y2 == y && x2 < x) {
                            mask_module(
                                cell(reserved@, w, x2, y2),
                                mask,
                                x2,
                                y2,
                                cell(m0, w, x2, y2),
                            )
                        } else {
                            cell(m0, w, x2, y2)
                        });
                    }
                    assert forall|i: int| w * w <= i < m0.len() * 8 implies #[trigger] lsb_bits(
                        modules@,
                    )[i] == lsb_bits(m0)[i] by {
                        assert(lsb_bits(before)[i] == lsb_bits(m0)[i]);
                    }
                }
                x = x + 1;
            }
            y = y + 1;
        }
    }

    /// Draws both copies of the format information of `level` and `mask`
    /// and the dark module.
    fn draw_format_bits(modules: &mut Vec<u8>, level: EccLevel, mask: Mask)
        requires
            grid_buffer(old(modules)@, Self::spec_width()),
        ensures
            final(modules)@.len() == old(modules)@.len(),
            forall|x: int, y: int|
                in_grid(Self::spec_width(), x, y) ==> #[trigger] cell(
                    final(modules)@,
                    Self::spec_width(),
                    x,
                    y,
                ) == paint(
                    format_value(Self::spec_width(), format_word(level, mask), x, y),
                    cell(old(modules)@, Self::spec_width(), x, y),
                ),
    {
        let width = T::width();
        let ghost w = width as int;
        let ghost m0 = modules@;
        let bits = mask.format_bits(level);
        let mut index: usize = 0;
        while index <= 5
            invariant
                w == width as int,
                w == Self::spec_width(),
                21 <= width <= 177,
                index <= 6,
                grid_buffer(m0, w),
                modules@.len() == m0.len(),
                forall|x: int, y: int|
                    in_grid(w, x, y) ==> #[trigger] cell(modules@, w, x, y) == paint(
                        format_upto(w, bits, 0, index as int, x, y),
                        cell(m0, w, x, y),
                    ),
            decreases 6 - index,
        {
            let ghost before = modules@;
            let bit = Self::get_format_bit(bits, index);
            Self::set_module(modules, 8, index, bit);
            index = index + 1;
            proof {
                assert forall|x: int, y: int| in_grid(w, x, y) implies #[trigger] cell(modules@, w, x, y)
                    == paint(format_upto(w, bits, 0, index as int, x, y), cell(m0, w, x, y)) by {
                    assert(cell(before, w, x, y) == paint(
                        format_upto(w, bits, 0, index - 1, x, y),
                        cell(m0, w, x, y),
                    ));
                }
            }
        }
        let ghost m1 = modules@;
        let b6 = Self::get_format_bit(bits, 6);
        Self::set_module(modules, 8, 7, b6);
        let ghost m2 = modules@;
        let b7 = Self::get_format_bit(bits, 7);
        Self::set_module(modules, 8, 8, b7);
        let ghost m3 = modules@;
        let b8 = Self::get_format_bit(bits, 8);
        Self::set_module(modules, 7, 8, b8);
        proof {
            assert forall|x: int, y: int| in_grid(w, x, y) implies #[trigger] cell(modules@, w, x, y)
                == paint(format_upto(w, bits, 1, 9, x, y), cell(m0, w, x, y)) by {
                assert(cell(m1, w, x, y) == paint(format_upto(w, bits, 0, 6, x, y), cell(m0, w, x, y)));
                assert(cell(m2, w, x, y) == cell(m2, w, x, y));
                assert(cell(m3, w, x, y) == cell(m3, w, x, y));
            }
        }
        index = 9;
        while index <= 14
            invariant
                w == width as int,
                w == Self::spec_width(),
                21 <= width <= 177,
                9 <= index <= 15,
                grid_buffer(m0, w),
                modules@.len() == m0.len(),
                forall|x: int, y: int|
                    in_grid(w, x, y) ==> #[trigger] cell(modules@, w, x, y) == paint(
                        format_upto(w, bits, 1, index as int, x, y),
                        cell(m0, w, x, y),
                    ),
            decreases 15 - index,
        {
            let ghost before = modules@;
            let bit = Self::get_format_bit(bits, index);
            Self::set_module(modules, 14 - index, 8, bit);
            index = index + 1;
            proof {
                assert forall|x: int, y: int| in_grid(w, x, y) implies #[trigger] cell(modules@, w, x, y)
                    == paint(format_upto(w, bits, 1, index as int, x, y), cell(m0, w, x, y)) by {
                    assert(cell(before, w, x, y) == paint(
                        format_upto(w, bits, 1, index - 1, x, y),
                        cell(m0, w, x, y),
                    ));
                }
            }
        }
        index = 0;
        while index <= 7
            invariant
                w == width as int,
                w == Self::spec_width(),
                21 <= width <= 177,
                index <= 8,
                grid_buffer(m0, w),
                modules@.len() == m0.len(),
                forall|x: int, y: int|
                    in_grid(w, x, y) ==> #[trigger] cell(modules@, w, x, y) == paint(
                        format_upto(w, bits, 2, index as int, x, y),
                        cell(m0, w, x, y),
                    ),
            decreases 8 - index,
        {
            let ghost before = modules@;
            let bit = Self::get_format_bit(bits, index);
            Self::set_module(modules, width - 1 - index, 8, bit);
            index = index + 1;
            proof {
                assert forall|x: int, y: int| in_grid(w, x, y) implies #[trigger] cell(modules@, w, x, y)
                    == paint(format_upto(w, bits, 2, index as int, x, y), cell(m0, w, x, y)) by {
                    assert(cell(before, w, x, y) == paint(
                        format_upto(w, bits, 2, index - 1, x, y),
                        cell(m0, w, x, y),
                    ));
                }
            }
        }
        index = 8;
        while index <= 14
            invariant
                w == width as int,
                w == Self::spec_width(),
                21 <= width <= 177,
                8 <= index <= 15,
                grid_buffer(m0, w),
                modules@.len() == m0.len(),
                forall|x: int, y: int|
                    in_grid(w, x, y) ==> #[trigger] cell(modules@, w, x, y) == paint(
                        format_upto(w, bits, 3, index as int, x, y),
                        cell(m0, w, x, y),
                    ),
            decreases 15 - index,
        {
            let ghost before = modules@;
            let bit = Self::get_format_bit(bits, index);
            Self::set_module(modules, 8, width - 15 + index, bit);
            index = index + 1;
            proof {
                assert forall|x: int, y: int| in_grid(w, x, y) implies #[trigger] cell(modules@, w, x, y)
                    == paint(format_upto(w, bits, 3, index as int, x, y), cell(m0, w, x, y)) by {
                    assert(cell(before, w, x, y) == paint(
                        format_upto(w, bits, 3, index - 1, x, y),
                        cell(m0, w, x, y),
                    ));
                }
            }
        }
        let ghost m4 = modules@;
        Self::set_module(modules, 8, width - 8, true);
        proof {
            assert forall|x: int, y: int| in_grid(w, x, y) implies #[trigger] cell(modules@, w, x, y)
                == paint(format_value(w, bits, x, y), cell(m0, w, x, y)) by {
                assert(cell(m4, w, x, y) == paint(format_upto(w, bits, 3, 15, x, y), cell(m0, w, x, y)));
            }
        }
    }

    /// Penalty of one run of `run_len` equal modules.
    fn penalty_for_run(run_len: usize) -> (r: usize)
        ensures
            r == run_penalty(run_len as int),
    {
        if run_len >= 5 {
            run_len - 2
        } else {
            0
        }
    }

    /// Run penalty of a row or a column.
    fn penalty_for_line(line: &[bool]) -> (r: usize)
        ensures
            r == line_penalty(line@),
            r <= line@.len(),
    {
        if line.len() == 0 {
            return 0;
        }
        let mut current = line[0];
        let mut run_len: usize = 1;
        let mut penalty: usize = 0;
        let mut i: usize = 1;
        while i < line.len()
            invariant
                1 <= i <= line@.len(),
                current == line@[i - 1],
                run_len == run_len_at(line@, i - 1),
                penalty == line_penalty_upto(line@, i - 1),
                penalty + run_len <= i,
                1 <= run_len,
            decreases line@.len() - i,
        {
            let bit = line[i];
            if bit == current {
                run_len = run_len + 1;
            } else {
                penalty = penalty + Self::penalty_for_run(run_len);
                current = bit;
                run_len = 1;
            }
            i = i + 1;
        }
        penalty + Self::penalty_for_run(run_len)
    }

    /// Row `y` of a grid buffer as a line of modules.
    fn row_modules(modules: &[u8], y: usize) -> (r: Vec<bool>)
        requires
            grid_buffer(modules@, Self::spec_width()),
            0 <= y < Self::spec_width(),
        ensures
            r@ == grid_row(lsb_bits(modules@), Self::spec_width(), y as int),
    {
        let width = T::width();
        let mut line: Vec<bool> = Vec::new();
        let mut x: usize = 0;
        while x < width
            invariant
                width as int == Self::spec_width(),
                grid_buffer(modules@, width as int),
                y < width,
                x <= width,
                line@.len() == x,
                forall|k: int| 0 <= k < x ==> line@[k] == at(lsb_bits(modules@), width as int, k, y as int),
            decreases width - x,
        {
            line.push(Self::get_module(modules, x, y));
            x = x + 1;
        }
        assert(line@ =~= grid_row(lsb_bits(modules@), width as int, y as int));
        line
    }

    /// Column `x` of a grid buffer as a line of modules.
    fn column_modules(modules: &[u8], x: usize) -> (r: Vec<bool>)
        requires
            grid_buffer(modules@, Self::spec_width()),
            0 <= x < Self::spec_width(),
        ensures
            r@ == grid_column(lsb_bits(modules@), Self::spec_width(), x as int),
    {
        let width = T::width();
        let mut line: Vec<bool> = Vec::new();
        let mut y: usize = 0;
        while y < width
            invariant
                width as int == Self::spec_width(),
                grid_buffer(modules@, width as int),
                x < width,
                y <= width,
                line@.len() == y,
                forall|k: int| 0 <= k < y ==> line@[k] == at(lsb_bits(modules@), width as int, x as int, k),
            decreases width - y,
        {
            line.push(Self::get_module(modules, x, y));
            y = y + 1;
        }
        assert(line@ =~= grid_column(lsb_bits(modules@), width as int, x as int));
        line
    }

    /// Run penalty of all rows.
    fn penalty_rule1_rows(modules: &[u8]) -> (r: usize)
        requires
            grid_buffer(modules@, Self::spec_width()),
        ensures
            r == rows_penalty(lsb_bits(modules@), Self::spec_width(), Self::spec_width()),
            r <= Self::spec_width() * Self::spec_width(),
    {
        let width = T::width();
        let ghost w = width as int;
        let mut penalty: usize = 0;
        let mut y: usize = 0;
        while y < width
            invariant
                w == width as int,
                w == Self::spec_width(),
                21 <= width <= 177,
                grid_buffer(modules@, w),
                y <= width,
                penalty == rows_penalty(lsb_bits(modules@), w, y as int),
                penalty <= y * w,
            decreases width - y,
        {
            let line = Self::row_modules(modules, y);
            let here = Self::penalty_for_line(line.as_slice());
            assert(penalty + here <= (y + 1) * w) by (nonlinear_arith)
                requires
                    penalty <= y * w,
                    here <= w,
            ;
            assert((y + 1) * w <= 177 * 177) by (nonlinear_arith)
                requires
                    y < w <= 177,
            ;
            penalty = penalty + here;
            y = y + 1;
        }
        penalty
    }

    /// Run penalty of all columns.
    fn penalty_rule1_cols(modules: &[u8]) -> (r: usize)
        requires
            grid_buffer(modules@, Self::spec_width()),
        ensures
            r == columns_penalty(lsb_bits(modules@), Self::spec_width(), Self::spec_width()),
            r <= Self::spec_width() * Self::spec_width(),
    {
        let width = T::width();
        let ghost w = width as int;
        let mut penalty: usize = 0;
        let mut x: usize = 0;
        while x < width
            invariant
                w == width as int,
                w == Self::spec_width(),
                21 <= width <= 177,
                grid_buffer(modules@, w),
                x <= width,
                penalty == columns_penalty(lsb_bits(modules@), w, x as int),
                penalty <= x * w,
            decreases width - x,
        {
            let line = Self::column_modules(modules, x);
            let here = Self::penalty_for_line(line.as_slice());
            assert(penalty + here <= (x + 1) * w) by (nonlinear_arith)
                requires
                    penalty <= x * w,
                    here <= w,
            ;
            assert((x + 1) * w <= 177 * 177) by (nonlinear_arith)
                requires
                    x < w <= 177,
            ;
            penalty = penalty + here;
            x = x + 1;
        }
        penalty
    }

    /// Penalty of the one-colored 2x2 blocks: 3 each.
    fn penalty_rule2(modules: &[u8]) -> (r: usize)
        requires
            grid_buffer(modules@, Self::spec_width()),
        ensures
            r == blocks_penalty(lsb_bits(modules@), Self::spec_width(), Self::spec_width() - 1),
            r <= 3 * Self::spec_width() * Self::spec_width(),
    {
        let width = T::width();
        let ghost w = width as int;
        let ghost g = lsb_bits(modules@);
        let mut penalty: usize = 0;
        let mut y: usize = 0;
        while y < width - 1
            invariant
                w == width as int,
                w == Self::spec_width(),
                21 <= width <= 177,
                grid_buffer(modules@, w),
                g == lsb_bits(modules@),
                y <= width - 1,
                penalty == blocks_penalty(g, w, y as int),
                penalty <= 3 * y * w,
            decreases width - y,
        {
            let mut x: usize = 0;
            let ghost start = penalty;
            assert(3 * y * w <= 3 * 177 * 177) by (nonlinear_arith)
                requires
                    y < w <= 177,
            ;
            while x < width - 1
                invariant
                    start <= 3 * 177 * 177,
                    w == width as int,
                    w == Self::spec_width(),
                    21 <= width <= 177,
                    grid_buffer(modules@, w),
                    g == lsb_bits(modules@),
                    y < width - 1,
                    x <= width - 1,
                    start == blocks_penalty(g, w, y as int),
                    start <= 3 * y * w,
                    penalty == start + blocks_in_row(g, w, y as int, x as int),
                    penalty <= start + 3 * x,
                decreases width - x,
            {
                let color = Self::get_module(modules, x, y);
                if Self::get_module(modules, x + 1, y) == color && Self::get_module(modules, x, y + 1)
                    == color && Self::get_module(modules, x + 1, y + 1) == color {
                    penalty = penalty + 3;
                }
                x = x + 1;
            }
            assert(penalty <= 3 * (y + 1) * w) by (nonlinear_arith)
                requires
                    penalty <= start + 3 * (w - 1),
                    start <= 3 * y * w,
            ;
            assert(3 * (y + 1) * w <= 3 * 177 * 177) by (nonlinear_arith)
                requires
                    y < w <= 177,
            ;
            y = y + 1;
        }
        assert(3 * (w - 1) * w <= 3 * w * w) by (nonlinear_arith)
            requires
                w >= 1,
        ;
        penalty
    }

    /// Returns whether eleven modules look like a finder pattern with four
    /// light modules on one side.
    fn is_finder_like_pattern(bits: [bool; 11]) -> (r: bool)
        ensures
            r == finder_like(bits@),
    {
        let pattern_a: [bool; 11] = [
            true,
            false,
            true,
            true,
            true,
            false,
            true,
            false,
            false,
            false,
            false,
        ];
        let pattern_b: [bool; 11] = [
            false,
            false,
            false,
            false,
            true,
            false,
            true,
            true,
            true,
            false,
            true,
        ];
        assert(pattern_a@ =~= finder_pattern_a());
        assert(pattern_b@ =~= finder_pattern_b());
        let mut same_a = true;
        let mut same_b = true;
        let mut i: usize = 0;
        while i < 11
            invariant
                i <= 11,
                pattern_a@ == finder_pattern_a(),
                pattern_b@ == finder_pattern_b(),
                same_a == (forall|k: int| 0 <= k < i ==> bits@[k] == pattern_a@[k]),
                same_b == (forall|k: int| 0 <= k < i ==> bits@[k] == pattern_b@[k]),
            decreases 11 - i,
        {
            if bits[i] != pattern_a[i] {
                same_a = false;
            }
            if bits[i] != pattern_b[i] {
                same_b = false;
            }
            i = i + 1;
        }
        if same_a {
            assert(bits@ =~= finder_pattern_a());
        }
        if same_b {
            assert(bits@ =~= finder_pattern_b());
        }
        if !same_a {
            assert(bits@ != finder_pattern_a());
        }
        if !same_b {
            assert(bits@ != finder_pattern_b());
        }
        same_a || same_b
    }

    /// Penalty of the finder-like windows of all rows: 40 each.
    fn penalty_rule3_rows(modules: &[u8]) -> (r: usize)
        requires
            grid_buffer(modules@, Self::spec_width()),
        ensures
            r == finder_rows_penalty(lsb_bits(modules@), Self::spec_width(), Self::spec_width()),
            r <= 40 * Self::spec_width() * Self::spec_width(),
    {
        let width = T::width();
        let ghost w = width as int;
        let ghost g = lsb_bits(modules@);
        let mut penalty: usize = 0;
        let mut y: usize = 0;
        while y < width
            invariant
                w == width as int,
                w == Self::spec_width(),
                21 <= width <= 177,
                grid_buffer(modules@, w),
                g == lsb_bits(modules@),
                y <= width,
                penalty == finder_rows_penalty(g, w, y as int),
                penalty <= 40 * y * w,
            decreases width - y,
        {
            let mut x: usize = 0;
            let ghost start = penalty;
            assert(40 * y * w <= 40 * 177 * 177) by (nonlinear_arith)
                requires
                    y < w <= 177,
            ;
            while x <= width - 11
                invariant
                    start <= 40 * 177 * 177,
                    w == width as int,
                    w == Self::spec_width(),
                    21 <= width <= 177,
                    grid_buffer(modules@, w),
                    g == lsb_bits(modules@),
                    y < width,
                    x <= width - 10,
                    start == finder_rows_penalty(g, w, y as int),
                    start <= 40 * y * w,
                    penalty == start + finders_in_row(g, w, y as int, x as int),
                    penalty <= start + 40 * x,
                decreases width - x,
            {
                let mut bits = [false; 11];
                let mut index: usize = 0;
                while index < 11
                    invariant
                        w == width as int,
                        w == Self::spec_width(),
                        grid_buffer(modules@, w),
                        g == lsb_bits(modules@),
                        y < width,
                        x + 11 <= width,
                        index <= 11,
                        forall|k: int| 0 <= k < index ==> bits@[k] == at(g, w, x + k, y as int),
                    decreases 11 - index,
                {
                    bits[index] = Self::get_module(modules, x + index, y);
                    index = index + 1;
                }
                assert(bits@ =~= row_window(g, w, x as int, y as int));
                if Self::is_finder_like_pattern(bits) {
                    penalty = penalty + 40;
                }
                x = x + 1;
            }
            assert(penalty <= 40 * (y + 1) * w) by (nonlinear_arith)
                requires
                    penalty <= start + 40 * (w - 10),
                    start <= 40 * y * w,
            ;
            assert(40 * (y + 1) * w <= 40 * 177 * 177) by (nonlinear_arith)
                requires
                    y < w <= 177,
            ;
            y = y + 1;
        }
        penalty
    }

    /// Penalty of the finder-like windows of all columns: 40 each.
    fn penalty_rule3_cols(modules: &[u8]) -> (r: usize)
        requires
            grid_buffer(modules@, Self::spec_width()),
        ensures
            r == finder_columns_penalty(lsb_bits(modules@), Self::spec_width(), Self::spec_width()),
            r <= 40 * Self::spec_width() * Self::spec_width(),
    {
        let width = T::width();
        let ghost w = width as int;
        let ghost g = lsb_bits(modules@);
        let mut penalty: usize = 0;
        let mut x: usize = 0;
        while x < width
            invariant
                w == width as int,
                w == Self::spec_width(),
                21 <= width <= 177,
                grid_buffer(modules@, w),
                g == lsb_bits(modules@),
                x <= width,
                penalty == finder_columns_penalty(g, w, x as int),
                penalty <= 40 * x * w,
            decreases width - x,
        {
            let mut y: usize = 0;
            let ghost start = penalty;
            assert(40 * x * w <= 40 * 177 * 177) by (nonlinear_arith)
                requires
                    x < w <= 177,
            ;
            while y <= width - 11
                invariant
                    start <= 40 * 177 * 177,
                    w == width as int,
                    w == Self::spec_width(),
                    21 <= width <= 177,
                    grid_buffer(modules@, w),
                    g == lsb_bits(modules@),
                    x < width,
                    y <= width - 10,
                    start == finder_columns_penalty(g, w, x as int),
                    start <= 40 * x * w,
                    penalty == start + finders_in_column(g, w, x as int, y as int),
                    penalty <= start + 40 * y,
                decreases width - y,
            {
                let mut bits = [false; 11];
                let mut index: usize = 0;
                while index < 11
                    invariant
                        w == width as int,
                        w == Self::spec_width(),
                        grid_buffer(modules@, w),
                        g == lsb_bits(modules@),
                        x < width,
                        y + 11 <= width,
                        index <= 11,
                        forall|k: int| 0 <= k < index ==> bits@[k] == at(g, w, x as int, y + k),
                    decreases 11 - index,
                {
                    bits[index] = Self::get_module(modules, x, y + index);
                    index = index + 1;
                }
                assert(bits@ =~= column_window(g, w, x as int, y as int));
                if Self::is_finder_like_pattern(bits) {
                    penalty = penalty + 40;
                }
                y = y + 1;
            }
            assert(penalty <= 40 * (x + 1) * w) by (nonlinear_arith)
                requires
                    penalty <= start + 40 * (w - 10),
                    start <= 40 * x * w,
            ;
            assert(40 * (x + 1) * w <= 40 * 177 * 177) by (nonlinear_arith)
                requires
                    x < w <= 177,
            ;
            x = x + 1;
        }
        penalty
    }

    /// Penalty of the dark/light imbalance: 10 for each whole 5% by which
    /// the share of dark modules differs from one half.
    fn penalty_rule4(modules: &[u8]) -> (r: usize)
        requires
            grid_buffer(modules@, Self::spec_width()),
        ensures
            r == balance_penalty(lsb_bits(modules@), Self::spec_width()),
            r <= 100,
    {
        let width = T::width();
        let ghost w = width as int;
        let ghost g = lsb_bits(modules@);
        let mut dark_modules: usize = 0;
        let mut y: usize = 0;
        while y < width
            invariant
                w == width as int,
                w == Self::spec_width(),
                21 <= width <= 177,
                grid_buffer(modules@, w),
                g == lsb_bits(modules@),
                y <= width,
                dark_modules == dark_count(g, w, y as int),
                dark_modules <= y * w,
            decreases width - y,
        {
            let mut x: usize = 0;
            let ghost start = dark_modules;
            assert(y * w <= 177 * 177) by (nonlinear_arith)
                requires
                    y < w <= 177,
            ;
            while x < width
                invariant
                    start <= 177 * 177,
                    w == width as int,
                    w == Self::spec_width(),
                    21 <= width <= 177,
                    grid_buffer(modules@, w),
                    g == lsb_bits(modules@),
                    y < width,
                    x <= width,
                    start == dark_count(g, w, y as int),
                    start <= y * w,
                    dark_modules == start + dark_in_row(g, w, y as int, x as int),
                    dark_modules <= start + x,
                decreases width - x,
            {
                if Self::get_module(modules, x, y) {
                    dark_modules = dark_modules + 1;
                }
                x = x + 1;
            }
            assert(dark_modules <= (y + 1) * w) by (nonlinear_arith)
                requires
                    dark_modules <= start + w,
                    start <= y * w,
            ;
            assert((y + 1) * w <= 177 * 177) by (nonlinear_arith)
                requires
                    y < w <= 177,
            ;
            y = y + 1;
        }
        assert(width * width <= 177 * 177 && width * width >= 21 * 21) by (nonlinear_arith)
            requires
                21 <= width <= 177,
        ;
        let total_modules = width * width;
        let scaled = dark_modules * 20;
        let half = total_modules * 10;
        let diff = if scaled >= half {
            scaled - half
        } else {
            half - scaled
        };
        assert(diff <= 10 * total_modules);
        let deviation = diff / total_modules;
        assert(deviation <= 10) by (nonlinear_arith)
            requires
                deviation == diff / total_modules,
                diff <= 10 * total_modules,
                total_modules > 0,
        ;
        deviation * 10
    }

    /// The total penalty of a grid buffer.
    fn penalty_score(modules: &[u8]) -> (r: usize)
        requires
            grid_buffer(modules@, Self::spec_width()),
        ensures
            r == penalty_score(lsb_bits(modules@), Self::spec_width()),
            r <= 3_000_000,
    {
        let width = T::width();
        proof {
            assert(width * width <= 177 * 177) by (nonlinear_arith)
                requires
                    width <= 177,
            ;
        }
        let ghost w = width as int;
        assert(3 * w * w <= 3 * 177 * 177 && 40 * w * w <= 40 * 177 * 177) by (nonlinear_arith)
            requires
                w * w <= 177 * 177,
        ;
        let a = Self::penalty_rule1_rows(modules);
        let b = Self::penalty_rule1_cols(modules);
        let c = Self::penalty_rule2(modules);
        let d = Self::penalty_rule3_rows(modules);
        let e = Self::penalty_rule3_cols(modules);
        let f = Self::penalty_rule4(modules);
        a + b + c + d + e + f
    }

    /// Places the codeword bits in the unreserved cells, walking strips of
    /// two columns from the right edge; cells past the end of the stream
    /// are light.
    fn place_data(modules: &mut Vec<u8>, reserved: &[u8], codewords: &[u8])
        requires
            grid_buffer(old(modules)@, Self::spec_width()),
            grid_buffer(reserved@, Self::spec_width()),
            codewords@.len() * 8 <= usize::MAX,
        ensures
            final(modules)@.len() == old(modules)@.len(),
            forall|x: int, y: int|
                in_grid(Self::spec_width(), x, y) ==> #[trigger] cell(
                    final(modules)@,
                    Self::spec_width(),
                    x,
                    y,
                ) == placed_module(
                    |x2: int, y2: int| cell(reserved@, Self::spec_width(), x2, y2),
                    codewords@,
                    Self::spec_width(),
                    x,
                    y,
                    cell(old(modules)@, Self::spec_width(), x, y),
                ),
    {
        let width = T::width();
        let ghost w = width as int;
        let ghost m0 = modules@;
        let ghost res = |x2: int, y2: int| cell(reserved@, w, x2, y2);
        let total_bits = codewords.len() * 8;
        let mut bit_index: usize = 0;
        let mut upward = true;
        let mut right: usize = width - 1;
        let ghost mut p: int = 0;
        let ghost mut t: int = 0;
        proof {
            assert(valid_width(w));
        }
        while right > 0
            invariant
                w == width as int,
                w == Self::spec_width(),
                valid_width(w),
                21 <= width <= 177,
                total_bits == codewords@.len() * 8,
                grid_buffer(m0, w),
                grid_buffer(reserved@, w),
                modules@.len() == m0.len(),
                res == (|x2: int, y2: int| cell(reserved@, w, x2, y2)),
                0 <= p <= strip_count(w),
                t == p * (2 * w),
                p < strip_count(w) ==> right == if w - 1 - 2 * p >= 6 {
                    w - 1 - 2 * p
                } else {
                    w - 2 - 2 * p
                },
                p == strip_count(w) <==> right == 0,
                upward == strip_upward(p),
                bit_index == rank(res, w, t),
                bit_index <= t,
                forall|x: int, y: int|
                    in_grid(w, x, y) ==> #[trigger] cell(modules@, w, x, y) == if x != 6 && !res(x, y)
                        && visit_of(w, x, y) < t {
                        stream_bit(codewords@, rank(res, w, visit_of(w, x, y)))
                    } else {
                        cell(m0, w, x, y)
                    },
            decreases width - p,
        {
            if right == 6 {
                right = right - 1;
            }
            assert(right == strip_right(w, p));
            let mut offset: usize = 0;
            while offset < width
                invariant
                    w == width as int,
                    w == Self::spec_width(),
                    valid_width(w),
                    21 <= width <= 177,
                    total_bits == codewords@.len() * 8,
                    grid_buffer(m0, w),
                    grid_buffer(reserved@, w),
                    modules@.len() == m0.len(),
                    res == (|x2: int, y2: int| cell(reserved@, w, x2, y2)),
                    0 <= p < strip_count(w),
                    right == strip_right(w, p),
                    1 <= right < width,
                    upward == strip_upward(p),
                    offset <= width,
                    t == p * (2 * w) + offset * 2,
                    bit_index == rank(res, w, t),
                    bit_index <= t,
                    forall|x: int, y: int|
                        in_grid(w, x, y) ==> #[trigger] cell(modules@, w, x, y) == if x != 6 && !res(
                            x,
                            y,
                        ) && visit_of(w, x, y) < t {
                            stream_bit(codewords@, rank(res, w, visit_of(w, x, y)))
                        } else {
                            cell(m0, w, x, y)
                        },
                decreases width - offset,
            {
                let y = if upward {
                    width - 1 - offset
                } else {
                    offset
                };
                let mut dx: usize = 0;
                while dx < 2
                    invariant
                        w == width as int,
                        w == Self::spec_width(),
                        valid_width(w),
                        21 <= width <= 177,
                        total_bits == codewords@.len() * 8,
                        grid_buffer(m0, w),
                        grid_buffer(reserved@, w),
                        modules@.len() == m0.len(),
                        res == (|x2: int, y2: int| cell(reserved@, w, x2, y2)),
                        0 <= p < strip_count(w),
                        right == strip_right(w, p),
                        1 <= right < width,
                        upward == strip_upward(p),
                        offset < width,
                        y == if upward {
                            w - 1 - offset
                        } else {
                            offset as int
                        },
                        dx <= 2,
                        t == p * (2 * w) + offset * 2 + dx,
                        bit_index == rank(res, w, t),
                        bit_index <= t,
                        forall|x: int, y: int|
                            in_grid(w, x, y) ==> #[trigger] cell(modules@, w, x, y) == if x != 6
                                && !res(x, y) && visit_of(w, x, y) < t {
                                stream_bit(codewords@, rank(res, w, visit_of(w, x, y)))
                            } else {
                                cell(m0, w, x, y)
                            },
                    decreases 2 - dx,
                {
                    let x = right - dx;
                    proof {
                        lemma_visit_decompose(w, p, offset as int, dx as int);
                        lemma_visit_cell(w, t);
                        assert(visit_count(w) <= 177 * 177) by (nonlinear_arith)
                            requires
                                visit_count(w) == ((w - 1) / 2) * (2 * w),
                                21 <= w <= 177,
                        ;
                    }
                    let ghost before = modules@;
                    if !Self::is_reserved(reserved, x, y) {
                        let is_black = bit_index < total_bits && Self::get_codeword_bit(
                            codewords,
                            bit_index,
                        );
                        assert(is_black == stream_bit(codewords@, rank(res, w, t)));
                        Self::set_module(modules, x, y, is_black);
                        bit_index = bit_index + 1;
                    }
                    proof {
                        assert(visit_of(w, x as int, y as int) == t);
                        assert forall|x2: int, y2: int| in_grid(w, x2, y2) implies #[trigger] cell(
                            modules@,
                            w,
                            x2,
                            y2,
                        ) == if x2 != 6 && !res(x2, y2) && visit_of(w, x2, y2) < t + 1 {
                            stream_bit(codewords@, rank(res, w, visit_of(w, x2, y2)))
                        } else {
                            cell(m0, w, x2, y2)
                        } by {
                            assert(cell(before, w, x2, y2) == if x2 != 6 && !res(x2, y2) && visit_of(
                                w,
                                x2,
                                y2,
                            ) < t {
                                stream_bit(codewords@, rank(res, w, visit_of(w, x2, y2)))
                            } else {
                                cell(m0, w, x2, y2)
                            });
                            if x2 != 6 {
                                lemma_cell_visit(w, x2, y2);
                            }
                        }
                        assert(rank(res, w, t + 1) == rank(res, w, t) + if res(
                            visit_x(w, t),
                            visit_y(w, t),
                        ) {
                            0int
                        } else {
                            1int
                        });
                    }
                    dx = dx + 1;
                    proof {
                        t = t + 1;
                    }
                }
                offset = offset + 1;
            }
            proof {
                assert(t == (p + 1) * (2 * w)) by (nonlinear_arith)
                    requires
                        t == p * (2 * w) + w * 2,
                ;
            }
            upward = !upward;
            if right < 2 {
                right = 0;
            } else {
                right = right - 2;
            }
            proof {
                p = p + 1;
            }
        }
        proof {
            assert forall|x: int, y: int| in_grid(w, x, y) implies #[trigger] cell(modules@, w, x, y)
                == placed_module(res, codewords@, w, x, y, cell(m0, w, x, y)) by {
                if x != 6 {
                    lemma_cell_visit(w, x, y);
                }
            }
        }
    }
}

impl<T: Version> Clone for QrMatrix<T> {
    /// A matrix with the same modules, ECC level and mask.
    fn clone(&self) -> (r: Self)
        ensures
            forall|x: int, y: int|
                in_grid(Self::spec_width(), x, y) ==> #[trigger] r.module(x, y) == self.module(x, y),
            r.spec_ecc_level() == self.spec_ecc_level(),
            r.spec_mask() == self.spec_mask(),
    {
        proof {
            use_type_invariant(self);
        }
        let buffer = self.buffer.clone();
        proof {
            assert forall|i: int| 0 <= i < buffer@.len() implies buffer@[i] == self.buffer@[i] by {
                assert(cloned::<u8>(self.buffer[i], buffer[i]));
            }
            assert(buffer@ =~= self.buffer@);
        }
        Self { buffer, ecc_level: self.ecc_level, mask: self.mask, _marker: PhantomData }
    }
}

/// Iterator over a [`QrMatrix`] in row-major order.
///
/// Each item is `(x, y, is_dark)`.
pub struct QrMatrixIter<'d, T: Version> {
    matrix: &'d QrMatrix<T>,
    x: usize,
    y: usize,
}

impl<'d, T: Version> QrMatrixIter<'d, T> {
    #[verifier::type_invariant]
    closed spec fn wf(self) -> bool {
        let w = QrMatrix::<T>::spec_width();
        &&& self.y <= w
        &&& self.y < w ==> self.x < w
        &&& self.y == w ==> self.x == 0
    }

    /// The matrix walked.
    pub closed spec fn matrix(self) -> QrMatrix<T> {
        *self.matrix
    }

    /// Number of modules already yielded.
    pub closed spec fn position(self) -> int {
        self.y * QrMatrix::<T>::spec_width() + self.x
    }

    /// Returns the next module as `(x, y, is_dark)`, or `None` once every
    /// module has been yielded.
    pub fn next(&mut self) -> (r: Option<(usize, usize, bool)>)
        ensures
            final(self).matrix() == old(self).matrix(),
            0 <= old(self).position() <= QrMatrix::<T>::spec_width() * QrMatrix::<T>::spec_width(),
            old(self).position() < QrMatrix::<T>::spec_width() * QrMatrix::<T>::spec_width() ==> {
                &&& r matches Some(item)
                &&& item.0 == old(self).position() % QrMatrix::<T>::spec_width()
                &&& item.1 == old(self).position() / QrMatrix::<T>::spec_width()
                &&& item.2 == old(self).matrix().module(item.0 as int, item.1 as int)
                &&& final(self).position() == old(self).position() + 1
            },
            old(self).position() == QrMatrix::<T>::spec_width() * QrMatrix::<T>::spec_width() ==> r
                is None && final(self).position() == old(self).position(),
    {
        proof {
            use_type_invariant(&*self);
        }
        let width = T::width();
        let ghost w = width as int;
        let ghost pos = self.y * w + self.x;
        proof {
            if self.y < width {
                assert(pos < w * w) by (nonlinear_arith)
                    requires
                        pos == self.y * w + self.x,
                        self.y < w,
                        self.x < w,
                ;
                assert(0 <= self.y * w) by (nonlinear_arith)
                    requires
                        0 <= self.y,
                        0 <= w,
                ;
                vstd::arithmetic::div_mod::lemma_fundamental_div_mod_converse(
                    pos,
                    w,
                    self.y as int,
                    self.x as int,
                );
            } else {
                assert(pos == w * w);
            }
        }
        if self.y >= width {
            return None;
        }
        let x = self.x;
        let y = self.y;
        let dark = self.matrix.get(x, y);
        if x + 1 == width {
            proof {
                assert((y + 1) * w == y * w + w) by (nonlinear_arith);
            }
            *self = QrMatrixIter { matrix: self.matrix, x: 0, y: y + 1 };
        } else {
            *self = QrMatrixIter { matrix: self.matrix, x: x + 1, y };
        }
        Some((x, y, dark))
    }
}

} // verus!
