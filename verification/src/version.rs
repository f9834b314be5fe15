//! Typed QR versions.
//!
//! Each QR version (1 through 40) is a zero-sized marker type implementing
//! [`Version`]; APIs that are generic over the version size their buffers
//! from the version number.

use vstd::prelude::*;

use crate::helper::{data_capacity_for, lemma_table_facts, total_codewords_for, total_codewords_of};
use crate::types::{data_codewords_of, EccLevel};

verus! {

/// A zeroed buffer for the data and ECC codewords of version `T`.
pub fn new_data_ecc_buf<T: Version>() -> (r: Vec<u8>)
    ensures
        r@.len() == total_codewords_of(T::spec_version() as int),
        forall|i: int| 0 <= i < r@.len() ==> r@[i] == 0,
{
    vec![0u8; total_codewords_for(T::version())]
}

/// A zeroed visited set for the data codewords of version `T`, one bit per
/// codeword of the largest data capacity (level L).
pub fn new_interleave_visited_buf<T: Version>() -> (r: Vec<u8>)
    ensures
        r@.len() == (data_codewords_of(T::spec_version() as int, EccLevel::L) + 7) / 8,
        r@.len() * 8 >= data_codewords_of(T::spec_version() as int, EccLevel::L),
        forall|i: int| 0 <= i < r@.len() ==> r@[i] == 0,
{
    let version = T::version();
    proof {
        lemma_table_facts(version as int);
    }
    vec![0u8; (data_capacity_for(version, EccLevel::L) + 7) / 8]
}


/// QR version metadata for a typed QR symbol.
///
/// This trait is implemented by the provided `Version1` through `Version40`
/// marker types. It is primarily useful as a generic bound for APIs that work
/// with a caller-selected QR version.
pub trait Version: crate::sealed::SealedVersion {
    /// The QR version number, between 1 and 40.
    spec fn spec_version() -> nat;

    /// Returns the QR version number.
    fn version() -> (v: usize)
        ensures
            v == Self::spec_version(),
            1 <= v <= 40,
    ;

    /// Returns the side length of the matrix in modules.
    fn width() -> (w: usize)
        ensures
            w == 4 * Self::spec_version() + 17,
            21 <= w <= 177,
    {
        Self::version() * 4 + 17
    }
}

/// QR Code version 1 marker type.
#[derive(Debug, Clone, Copy, Default)]
pub struct Version1;

impl Version for Version1 {
    open spec fn spec_version() -> nat {
        1
    }

    fn version() -> (v: usize) {
        1
    }
}

/// QR Code version 2 marker type.
#[derive(Debug, Clone, Copy, Default)]
pub struct Version2;

impl Version for Version2 {
    open spec fn spec_version() -> nat {
        2
    }

    fn version() -> (v: usize) {
        2
    }
}

/// QR Code version 3 marker type.
#[derive(Debug, Clone, Copy, Default)]
pub struct Version3;

impl Version for Version3 {
    open spec fn spec_version() -> nat {
        3
    }

    fn version() -> (v: usize) {
        3
    }
}

/// QR Code version 4 marker type.
#[derive(Debug, Clone, Copy, Default)]
pub struct Version4;

impl Version for Version4 {
    open spec fn spec_version() -> nat {
        4
    }

    fn version() -> (v: usize) {
        4
    }
}

/// QR Code version 5 marker type.
#[derive(Debug, Clone, Copy, Default)]
pub struct Version5;

impl Version for Version5 {
    open spec fn spec_version() -> nat {
        5
    }

    fn version() -> (v: usize) {
        5
    }
}

/// QR Code version 6 marker type.
#[derive(Debug, Clone, Copy, Default)]
pub struct Version6;

impl Version for Version6 {
    open spec fn spec_version() -> nat {
        6
    }

    fn version() -> (v: usize) {
        6
    }
}

/// QR Code version 7 marker type.
#[derive(Debug, Clone, Copy, Default)]
pub struct Version7;

impl Version for Version7 {
    open spec fn spec_version() -> nat {
        7
    }

    fn version() -> (v: usize) {
        7
    }
}

/// QR Code version 8 marker type.
#[derive(Debug, Clone, Copy, Default)]
pub struct Version8;

impl Version for Version8 {
    open spec fn spec_version() -> nat {
        8
    }

    fn version() -> (v: usize) {
        8
    }
}

/// QR Code version 9 marker type.
#[derive(Debug, Clone, Copy, Default)]
pub struct Version9;

impl Version for Version9 {
    open spec fn spec_version() -> nat {
        9
    }

    fn version() -> (v: usize) {
        9
    }
}

/// QR Code version 10 marker type.
#[derive(Debug, Clone, Copy, Default)]
pub struct Version10;

impl Version for Version10 {
    open spec fn spec_version() -> nat {
        10
    }

    fn version() -> (v: usize) {
        10
    }
}

/// QR Code version 11 marker type.
#[derive(Debug, Clone, Copy, Default)]
pub struct Version11;

impl Version for Version11 {
    open spec fn spec_version() -> nat {
        11
    }

    fn version() -> (v: usize) {
        11
    }
}

/// QR Code version 12 marker type.
#[derive(Debug, Clone, Copy, Default)]
pub struct Version12;

impl Version for Version12 {
    open spec fn spec_version() -> nat {
        12
    }

    fn version() -> (v: usize) {
        12
    }
}

/// QR Code version 13 marker type.
#[derive(Debug, Clone, Copy, Default)]
pub struct Version13;

impl Version for Version13 {
    open spec fn spec_version() -> nat {
        13
    }

    fn version() -> (v: usize) {
        13
    }
}

/// QR Code version 14 marker type.
#[derive(Debug, Clone, Copy, Default)]
pub struct Version14;

impl Version for Version14 {
    open spec fn spec_version() -> nat {
        14
    }

    fn version() -> (v: usize) {
        14
    }
}

/// QR Code version 15 marker type.
#[derive(Debug, Clone, Copy, Default)]
pub struct Version15;

impl Version for Version15 {
    open spec fn spec_version() -> nat {
        15
    }

    fn version() -> (v: usize) {
        15
    }
}

/// QR Code version 16 marker type.
#[derive(Debug, Clone, Copy, Default)]
pub struct Version16;

impl Version for Version16 {
    open spec fn spec_version() -> nat {
        16
    }

    fn version() -> (v: usize) {
        16
    }
}

/// QR Code version 17 marker type.
#[derive(Debug, Clone, Copy, Default)]
pub struct Version17;

impl Version for Version17 {
    open spec fn spec_version() -> nat {
        17
    }

    fn version() -> (v: usize) {
        17
    }
}

/// QR Code version 18 marker type.
#[derive(Debug, Clone, Copy, Default)]
pub struct Version18;

impl Version for Version18 {
    open spec fn spec_version() -> nat {
        18
    }

    fn version() -> (v: usize) {
        18
    }
}

/// QR Code version 19 marker type.
#[derive(Debug, Clone, Copy, Default)]
pub struct Version19;

impl Version for Version19 {
    open spec fn spec_version() -> nat {
        19
    }

    fn version() -> (v: usize) {
        19
    }
}

/// QR Code version 20 marker type.
#[derive(Debug, Clone, Copy, Default)]
pub struct Version20;

impl Version for Version20 {
    open spec fn spec_version() -> nat {
        20
    }

    fn version() -> (v: usize) {
        20
    }
}

/// QR Code version 21 marker type.
#[derive(Debug, Clone, Copy, Default)]
pub struct Version21;

impl Version for Version21 {
    open spec fn spec_version() -> nat {
        21
    }

    fn version() -> (v: usize) {
        21
    }
}

/// QR Code version 22 marker type.
#[derive(Debug, Clone, Copy, Default)]
pub struct Version22;

impl Version for Version22 {
    open spec fn spec_version() -> nat {
        22
    }

    fn version() -> (v: usize) {
        22
    }
}

/// QR Code version 23 marker type.
#[derive(Debug, Clone, Copy, Default)]
pub struct Version23;

impl Version for Version23 {
    open spec fn spec_version() -> nat {
        23
    }

    fn version() -> (v: usize) {
        23
    }
}

/// QR Code version 24 marker type.
#[derive(Debug, Clone, Copy, Default)]
pub struct Version24;

impl Version for Version24 {
    open spec fn spec_version() -> nat {
        24
    }

    fn version() -> (v: usize) {
        24
    }
}

/// QR Code version 25 marker type.
#[derive(Debug, Clone, Copy, Default)]
pub struct Version25;

impl Version for Version25 {
    open spec fn spec_version() -> nat {
        25
    }

    fn version() -> (v: usize) {
        25
    }
}

/// QR Code version 26 marker type.
#[derive(Debug, Clone, Copy, Default)]
pub struct Version26;

impl Version for Version26 {
    open spec fn spec_version() -> nat {
        26
    }

    fn version() -> (v: usize) {
        26
    }
}

/// QR Code version 27 marker type.
#[derive(Debug, Clone, Copy, Default)]
pub struct Version27;

impl Version for Version27 {
    open spec fn spec_version() -> nat {
        27
    }

    fn version() -> (v: usize) {
        27
    }
}

/// QR Code version 28 marker type.
#[derive(Debug, Clone, Copy, Default)]
pub struct Version28;

impl Version for Version28 {
    open spec fn spec_version() -> nat {
        28
    }

    fn version() -> (v: usize) {
        28
    }
}

/// QR Code version 29 marker type.
#[derive(Debug, Clone, Copy, Default)]
pub struct Version29;

impl Version for Version29 {
    open spec fn spec_version() -> nat {
        29
    }

    fn version() -> (v: usize) {
        29
    }
}

/// QR Code version 30 marker type.
#[derive(Debug, Clone, Copy, Default)]
pub struct Version30;

impl Version for Version30 {
    open spec fn spec_version() -> nat {
        30
    }

    fn version() -> (v: usize) {
        30
    }
}

/// QR Code version 31 marker type.
#[derive(Debug, Clone, Copy, Default)]
pub struct Version31;

impl Version for Version31 {
    open spec fn spec_version() -> nat {
        31
    }

    fn version() -> (v: usize) {
        31
    }
}

/// QR Code version 32 marker type.
#[derive(Debug, Clone, Copy, Default)]
pub struct Version32;

impl Version for Version32 {
    open spec fn spec_version() -> nat {
        32
    }

    fn version() -> (v: usize) {
        32
    }
}

/// QR Code version 33 marker type.
#[derive(Debug, Clone, Copy, Default)]
pub struct Version33;

impl Version for Version33 {
    open spec fn spec_version() -> nat {
        33
    }

    fn version() -> (v: usize) {
        33
    }
}

/// QR Code version 34 marker type.
#[derive(Debug, Clone, Copy, Default)]
pub struct Version34;

impl Version for Version34 {
    open spec fn spec_version() -> nat {
        34
    }

    fn version() -> (v: usize) {
        34
    }
}

/// QR Code version 35 marker type.
#[derive(Debug, Clone, Copy, Default)]
pub struct Version35;

impl Version for Version35 {
    open spec fn spec_version() -> nat {
        35
    }

    fn version() -> (v: usize) {
        35
    }
}

/// QR Code version 36 marker type.
#[derive(Debug, Clone, Copy, Default)]
pub struct Version36;

impl Version for Version36 {
    open spec fn spec_version() -> nat {
        36
    }

    fn version() -> (v: usize) {
        36
    }
}

/// QR Code version 37 marker type.
#[derive(Debug, Clone, Copy, Default)]
pub struct Version37;

impl Version for Version37 {
    open spec fn spec_version() -> nat {
        37
    }

    fn version() -> (v: usize) {
        37
    }
}

/// QR Code version 38 marker type.
#[derive(Debug, Clone, Copy, Default)]
pub struct Version38;

impl Version for Version38 {
    open spec fn spec_version() -> nat {
        38
    }

    fn version() -> (v: usize) {
        38
    }
}

/// QR Code version 39 marker type.
#[derive(Debug, Clone, Copy, Default)]
pub struct Version39;

impl Version for Version39 {
    open spec fn spec_version() -> nat {
        39
    }

    fn version() -> (v: usize) {
        39
    }
}

/// QR Code version 40 marker type.
#[derive(Debug, Clone, Copy, Default)]
pub struct Version40;

impl Version for Version40 {
    open spec fn spec_version() -> nat {
        40
    }

    fn version() -> (v: usize) {
        40
    }
}

} // verus!
