//! A QR code generator: typed QR versions, automatic choice of the encoding
//! mode, of the error-correction level and of the mask, and a module matrix
//! that higher layers can render however they like.

use vstd::prelude::*;

pub mod bits;
pub mod builder;
pub mod capacity;
pub mod drawable;
pub mod ecc;
pub mod encoder;
pub mod gf;
pub mod helper;
pub mod interleave;
pub mod matrix;
pub mod matrix_template;
pub mod penalty;
pub mod placement;
mod sealed;
pub mod types;
pub mod version;

pub use builder::QrBuilder;
pub use drawable::QrDrawable;
pub use matrix::{QrMatrix, QrMatrixIter};
pub use types::{EccLevel, EncodeMode, Mask, QrError};
pub use version::{
    Version, Version1, Version10, Version11, Version12, Version13, Version14, Version15, Version16,
    Version17, Version18, Version19, Version2, Version20, Version21, Version22, Version23,
    Version24, Version25, Version26, Version27, Version28, Version29, Version3, Version30,
    Version31, Version32, Version33, Version34, Version35, Version36, Version37, Version38,
    Version39, Version4, Version40, Version5, Version6, Version7, Version8, Version9,
};
