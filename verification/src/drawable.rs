//! The geometry of drawing a QR matrix on a pixel display: module colors,
//! the pixel size of a module, a quiet-zone border, and the top-left pixel
//! of each dark module.

use vstd::prelude::*;

use crate::matrix::QrMatrix;
use crate::version::Version;

verus! {

/// `a + b`, saturated at `u32::MAX`.
pub open spec fn saturating_add_u32(a: int, b: int) -> int {
    if a + b > u32::MAX {
        u32::MAX as int
    } else {
        a + b
    }
}

/// `a * b`, saturated at `u32::MAX`.
pub open spec fn saturating_mul_u32(a: int, b: int) -> int {
    if a * b > u32::MAX {
        u32::MAX as int
    } else {
        a * b
    }
}

/// The pixel coordinate where module `index` of a row or a column starts,
/// after a border of `border` modules, with modules of `module_size`
/// pixels; saturated at `u32::MAX`.
pub open spec fn origin_coordinate(index: int, border: int, module_size: int) -> int {
    saturating_mul_u32(saturating_add_u32(index, border), module_size)
}

/// The top-left pixel of module `(x, y)`, if both coordinates fit an `i32`.
pub open spec fn module_origin_of(x: int, y: int, border: int, module_size: int) -> Option<
    (i32, i32),
> {
    let ox = origin_coordinate(x, border, module_size);
    let oy = origin_coordinate(y, border, module_size);
    if ox <= i32::MAX && oy <= i32::MAX {
        Some((ox as i32, oy as i32))
    } else {
        None
    }
}

/// The top-left pixels of the dark modules among the first `n` modules of
/// `matrix` in row-major order, skipping modules whose corner does not fit
/// an `i32`.
pub open spec fn dark_origins_upto<T: Version>(
    matrix: QrMatrix<T>,
    border: int,
    module_size: int,
    n: int,
) -> Seq<(i32, i32)>
    decreases n,
{
    if n <= 0 {
        seq![]
    } else {
        let w = QrMatrix::<T>::spec_width();
        let x = (n - 1) % w;
        let y = (n - 1) / w;
        let prev = dark_origins_upto(matrix, border, module_size, n - 1);
        match module_origin_of(x, y, border, module_size) {
            Some(origin) => if matrix.module(x, y) {
                prev.push(origin)
            } else {
                prev
            },
            None => prev,
        }
    }
}

/// `a * b`, saturated at `u32::MAX`.
fn saturating_mul(a: u32, b: u32) -> (r: u32)
    ensures
        r == saturating_mul_u32(a as int, b as int),
{
    match a.checked_mul(b) {
        Some(product) => product,
        None => u32::MAX,
    }
}

/// A drawing of a [`QrMatrix`]: colors for dark and light modules, the
/// pixel size of a module and the width of the quiet-zone border in
/// modules, positioned at the origin.
#[derive(Debug, Copy)]
pub struct QrDrawable<'a, T: Version, C: Copy> {
    matrix: &'a QrMatrix<T>,
    dark_color: C,
    light_color: C,
    module_size: u32,
    border: u32,
}

impl<'a, T: Version, C: Copy> QrDrawable<'a, T, C> {
    #[verifier::type_invariant]
    closed spec fn wf(self) -> bool {
        self.module_size > 0
    }

    /// The matrix drawn.
    pub closed spec fn spec_matrix(self) -> QrMatrix<T> {
        *self.matrix
    }

    /// The color of dark modules.
    pub closed spec fn spec_dark_color(self) -> C {
        self.dark_color
    }

    /// The color of light modules and of the border.
    pub closed spec fn spec_light_color(self) -> C {
        self.light_color
    }

    /// The pixel size of a module.
    pub closed spec fn spec_module_size(self) -> u32 {
        self.module_size
    }

    /// The width of the quiet-zone border in modules.
    pub closed spec fn spec_border(self) -> u32 {
        self.border
    }

    /// Creates a drawable wrapper around a [`QrMatrix`].
    ///
    /// The default configuration uses a module size of `1` pixel and a quiet
    /// zone border of `0` modules.
    pub fn new(matrix: &'a QrMatrix<T>, dark_color: C, light_color: C) -> (r: Self)
        ensures
            r.spec_matrix() == *matrix,
            r.spec_dark_color() == dark_color,
            r.spec_light_color() == light_color,
            r.spec_module_size() == 1,
            r.spec_border() == 0,
    {
        Self { matrix, dark_color, light_color, module_size: 1, border: 0 }
    }

    /// Sets the pixel size of each QR module; it must be greater than zero.
    pub fn with_module_size(self, module_size: u32) -> (r: Self)
        requires
            module_size > 0,
        ensures
            r.spec_matrix() == self.spec_matrix(),
            r.spec_dark_color() == self.spec_dark_color(),
            r.spec_light_color() == self.spec_light_color(),
            r.spec_module_size() == module_size,
            r.spec_border() == self.spec_border(),
    {
        Self {
            matrix: self.matrix,
            dark_color: self.dark_color,
            light_color: self.light_color,
            module_size,
            border: self.border,
        }
    }

    /// Sets the quiet-zone border width in modules.
    pub fn with_border(self, border: u32) -> (r: Self)
        ensures
            r.spec_matrix() == self.spec_matrix(),
            r.spec_dark_color() == self.spec_dark_color(),
            r.spec_light_color() == self.spec_light_color(),
            r.spec_module_size() == self.spec_module_size(),
            r.spec_border() == border,
    {
        proof {
            use_type_invariant(&self);
        }
        Self {
            matrix: self.matrix,
            dark_color: self.dark_color,
            light_color: self.light_color,
            module_size: self.module_size,
            border,
        }
    }

    /// Returns the wrapped matrix.
    pub fn matrix(&self) -> (r: &'a QrMatrix<T>)
        ensures
            *r == self.spec_matrix(),
    {
        self.matrix
    }

    /// Returns the configured dark module color.
    pub fn dark_color(&self) -> (r: C)
        ensures
            r == self.spec_dark_color(),
    {
        self.dark_color
    }

    /// Returns the configured light module color.
    pub fn light_color(&self) -> (r: C)
        ensures
            r == self.spec_light_color(),
    {
        self.light_color
    }

    /// Returns the configured pixel size of each module.
    pub fn module_size(&self) -> (r: u32)
        ensures
            r == self.spec_module_size(),
            r > 0,
    {
        proof {
            use_type_invariant(self);
        }
        self.module_size
    }

    /// Returns the configured quiet-zone border width in modules.
    pub fn border(&self) -> (r: u32)
        ensures
            r == self.spec_border(),
    {
        self.border
    }

    /// The side length in modules, border included, saturated at `u32::MAX`.
    fn total_modules(&self) -> (r: u32)
        ensures
            r == saturating_add_u32(
                QrMatrix::<T>::spec_width(),
                saturating_mul_u32(self.spec_border() as int, 2),
            ),
    {
        let width = T::width() as u32;
        width.saturating_add(saturating_mul(self.border, 2))
    }

    /// The side length in pixels, border included, saturated at `u32::MAX`.
    pub fn pixel_size(&self) -> (r: u32)
        ensures
            r == saturating_mul_u32(
                saturating_add_u32(
                    QrMatrix::<T>::spec_width(),
                    saturating_mul_u32(self.spec_border() as int, 2),
                ),
                self.spec_module_size() as int,
            ),
    {
        saturating_mul(self.total_modules(), self.module_size)
    }

    /// The top-left pixel of module `(x, y)`, if both coordinates fit an `i32`.
    fn module_origin(&self, x: usize, y: usize) -> (r: Option<(i32, i32)>)
        requires
            x < QrMatrix::<T>::spec_width() <= 177,
            y < QrMatrix::<T>::spec_width(),
        ensures
            r == module_origin_of(
                x as int,
                y as int,
                self.spec_border() as int,
                self.spec_module_size() as int,
            ),
    {
        let module_x = saturating_mul((x as u32).saturating_add(self.border), self.module_size);
        let module_y = saturating_mul((y as u32).saturating_add(self.border), self.module_size);
        if module_x <= i32::MAX as u32 && module_y <= i32::MAX as u32 {
            Some((module_x as i32, module_y as i32))
        } else {
            None
        }
    }

    /// The top-left pixels of the dark modules in row-major order, each
    /// the corner of a square of `module_size` pixels to fill with the dark
    /// color over a background of the light color; modules whose corner
    /// does not fit an `i32` are left out.
    pub fn dark_module_origins(&self) -> (r: Vec<(i32, i32)>)
        ensures
            r@ == dark_origins_upto(
                self.spec_matrix(),
                self.spec_border() as int,
                self.spec_module_size() as int,
                QrMatrix::<T>::spec_width() * QrMatrix::<T>::spec_width(),
            ),
    {
        let width = T::width();
        let ghost w = width as int;
        let ghost border = self.spec_border() as int;
        let ghost size = self.spec_module_size() as int;
        let mut origins: Vec<(i32, i32)> = Vec::new();
        let mut iter = self.matrix.iter();
        loop
            invariant
                iter.matrix() == self.spec_matrix(),
                w == QrMatrix::<T>::spec_width(),
                21 <= w <= 177,
                border == self.spec_border() as int,
                size == self.spec_module_size() as int,
                0 <= iter.position() <= w * w,
                origins@ == dark_origins_upto(self.spec_matrix(), border, size, iter.position()),
            ensures
                origins@ == dark_origins_upto(self.spec_matrix(), border, size, w * w),
            decreases w * w - iter.position(),
        {
            let ghost before = iter.position();
            match iter.next() {
                Some(item) => {
                    let (x, y, dark) = item;
                    assert(x < w && y < w) by {
                        vstd::arithmetic::div_mod::lemma_fundamental_div_mod(before, w);
                        assert(before / w < w) by (nonlinear_arith)
                            requires
                                0 <= before < w * w,
                                w > 0,
                        ;
                    }
                    if dark {
                        match self.module_origin(x, y) {
                            Some(origin) => {
                                origins.push(origin);
                            },
                            None => {},
                        }
                    }
                },
                None => {
                    break;
                },
            }
        }
        origins
    }
}

impl<'a, T: Version, C: Copy> Clone for QrDrawable<'a, T, C> {
    /// A drawable of the same matrix with the same colors, module size and
    /// border.
    fn clone(&self) -> (r: Self)
        ensures
            r.spec_matrix() == self.spec_matrix(),
            r.spec_dark_color() == self.spec_dark_color(),
            r.spec_light_color() == self.spec_light_color(),
            r.spec_module_size() == self.spec_module_size(),
            r.spec_border() == self.spec_border(),
    {
        proof {
            use_type_invariant(self);
        }
        Self {
            matrix: self.matrix,
            dark_color: self.dark_color,
            light_color: self.light_color,
            module_size: self.module_size,
            border: self.border,
        }
    }
}

} // verus!
