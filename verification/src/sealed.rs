//! The marker that keeps `Version` implemented by the provided version
//! types only.

use vstd::prelude::*;

use crate::version::{
    Version1, Version2, Version3, Version4, Version5, Version6, Version7, Version8, Version9,
    Version10, Version11, Version12, Version13, Version14, Version15, Version16, Version17,
    Version18, Version19, Version20, Version21, Version22, Version23, Version24, Version25,
    Version26, Version27, Version28, Version29, Version30, Version31, Version32, Version33,
    Version34, Version35, Version36, Version37, Version38, Version39, Version40,
};

verus! {

/// Implemented by `Version1` through `Version40` only.
pub trait SealedVersion {}

impl SealedVersion for Version1 {}
impl SealedVersion for Version2 {}
impl SealedVersion for Version3 {}
impl SealedVersion for Version4 {}
impl SealedVersion for Version5 {}
impl SealedVersion for Version6 {}
impl SealedVersion for Version7 {}
impl SealedVersion for Version8 {}
impl SealedVersion for Version9 {}
impl SealedVersion for Version10 {}
impl SealedVersion for Version11 {}
impl SealedVersion for Version12 {}
impl SealedVersion for Version13 {}
impl SealedVersion for Version14 {}
impl SealedVersion for Version15 {}
impl SealedVersion for Version16 {}
impl SealedVersion for Version17 {}
impl SealedVersion for Version18 {}
impl SealedVersion for Version19 {}
impl SealedVersion for Version20 {}
impl SealedVersion for Version21 {}
impl SealedVersion for Version22 {}
impl SealedVersion for Version23 {}
impl SealedVersion for Version24 {}
impl SealedVersion for Version25 {}
impl SealedVersion for Version26 {}
impl SealedVersion for Version27 {}
impl SealedVersion for Version28 {}
impl SealedVersion for Version29 {}
impl SealedVersion for Version30 {}
impl SealedVersion for Version31 {}
impl SealedVersion for Version32 {}
impl SealedVersion for Version33 {}
impl SealedVersion for Version34 {}
impl SealedVersion for Version35 {}
impl SealedVersion for Version36 {}
impl SealedVersion for Version37 {}
impl SealedVersion for Version38 {}
impl SealedVersion for Version39 {}
impl SealedVersion for Version40 {}

} // verus!
