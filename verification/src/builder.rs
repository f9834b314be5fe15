//! The builder that turns a payload into a QR matrix of a typed version.

use core::marker::PhantomData;

use vstd::prelude::*;

use crate::bits::in_grid;
use crate::ecc::{generator_poly, ReedSolomon, VersionGeneratorTable};
use crate::encoder::{
    choose_mode, data_codewords, lemma_encoding_rejects_unrepresentable,
    lemma_encoding_succeeds_iff_fits, representable, EncodedData,
};
use crate::helper::{
    best_ecc_level, best_level_spec, ecc_per_block_of, fits_spec, lemma_table_facts,
    level_table_facts, total_codewords_of,
};
use crate::interleave::{interleave, interleave_spec};
use crate::matrix::{best_mask, symbol_module, QrMatrix};
use crate::types::{blocks_of, data_codewords_of, EccLevel, EncodeMode, QrError};
use crate::version::{new_data_ecc_buf, Version};

verus! {

/// The encoding mode `build` uses: the one pinned, else the most compact
/// one that can represent `data`.
pub open spec fn build_mode(mode: Option<EncodeMode>, data: Seq<u8>) -> EncodeMode {
    match mode {
        Some(m) => m,
        None => choose_mode(data),
    }
}

/// The ECC level `build` uses: the one pinned, else the strongest one at
/// which the payload fits.
pub open spec fn build_level(
    version: int,
    mode: Option<EncodeMode>,
    level: Option<EccLevel>,
    data: Seq<u8>,
) -> Result<EccLevel, QrError> {
    match level {
        Some(l) => Ok(l),
        None => best_level_spec(build_mode(mode, data), version, data.len() as int),
    }
}

/// The final codeword sequence of a symbol: the data codewords of the
/// payload, split into blocks and interleaved, followed by the interleaved
/// ECC codewords of the blocks and zero remainder codewords.
pub open spec fn symbol_codewords(
    version: int,
    mode: EncodeMode,
    level: EccLevel,
    data: Seq<u8>,
) -> Result<Seq<u8>, QrError> {
    match data_codewords(version, mode, level, data) {
        Ok(bytes) => Ok(
            interleave_spec(
                bytes + Seq::new(
                    (total_codewords_of(version) - data_codewords_of(version, level)) as nat,
                    |i: int| 0u8,
                ),
                data_codewords_of(version, level) as int,
                blocks_of(version, level) as int,
                ecc_per_block_of(version, level),
                generator_poly(ecc_per_block_of(version, level) as nat),
            ),
        ),
        Err(e) => Err(e),
    }
}

/// The ECC level and the final codeword sequence `build` produces, or the
/// error it returns.
pub open spec fn build_codewords(
    version: int,
    mode: Option<EncodeMode>,
    level: Option<EccLevel>,
    data: Seq<u8>,
) -> Result<(EccLevel, Seq<u8>), QrError> {
    match build_level(version, mode, level, data) {
        Ok(l) => match symbol_codewords(version, build_mode(mode, data), l, data) {
            Ok(codewords) => Ok((l, codewords)),
            Err(e) => Err(e),
        },
        Err(e) => Err(e),
    }
}

/// Builds a QR code matrix for a specific typed QR version.
///
/// `QrBuilder<T>` keeps the version at the type level.
#[derive(Debug, Copy)]
pub struct QrBuilder<T: Version> {
    mode: Option<EncodeMode>,
    ecc_level: Option<EccLevel>,
    _marker: PhantomData<T>,
}

impl<T: Version> QrBuilder<T> {
    /// The pinned encoding mode, if any.
    pub closed spec fn spec_mode(self) -> Option<EncodeMode> {
        self.mode
    }

    /// The pinned ECC level, if any.
    pub closed spec fn spec_ecc_level(self) -> Option<EccLevel> {
        self.ecc_level
    }

    /// Creates a builder with automatic mode detection and ECC selection enabled.
    ///
    /// When `with_mode` is not used, `build` detects the most compact
    /// supported encoding mode automatically. When `with_ecc_level` is not
    /// used, it picks the strongest error-correction level that still fits
    /// the payload.
    pub fn new() -> (r: Self)
        ensures
            r.spec_mode() is None,
            r.spec_ecc_level() is None,
    {
        Self { mode: None, ecc_level: None, _marker: PhantomData }
    }

    /// Forces a specific encoding mode for the payload.
    ///
    /// If the data does not fit the selected mode, `build` returns
    /// [`QrError::DataInvalid`].
    pub fn with_mode(self, mode: EncodeMode) -> (r: Self)
        ensures
            r.spec_mode() == Some(mode),
            r.spec_ecc_level() == self.spec_ecc_level(),
    {
        Self { mode: Some(mode), ecc_level: self.ecc_level, _marker: PhantomData }
    }

    /// Forces a specific error-correction level for the final symbol.
    pub fn with_ecc_level(self, ecc_level: EccLevel) -> (r: Self)
        ensures
            r.spec_ecc_level() == Some(ecc_level),
            r.spec_mode() == self.spec_mode(),
    {
        Self { mode: self.mode, ecc_level: Some(ecc_level), _marker: PhantomData }
    }

    /// Encodes `data` and returns the final QR matrix.
    ///
    /// The builder uses the pinned mode, else the most compact one; the
    /// pinned ECC level, else the strongest fitting one; and always the
    /// best mask. Returns [`QrError::Overflow`] when the payload does not
    /// fit in the selected version and [`QrError::DataInvalid`] when the
    /// pinned mode cannot represent it.
    pub fn build(self, data: &[u8]) -> (r: Result<QrMatrix<T>, QrError>)
        ensures
            match build_codewords(
                T::spec_version() as int,
                self.spec_mode(),
                self.spec_ecc_level(),
                data@,
            ) {
                Ok((level, codewords)) => r matches Ok(m) && m.spec_ecc_level() == level
                    && m.spec_mask() == best_mask(T::spec_version() as int, codewords, level)
                    && forall|x: int, y: int|
                    in_grid(QrMatrix::<T>::spec_width(), x, y) ==> #[trigger] m.module(x, y)
                        == symbol_module(
                        T::spec_version() as int,
                        codewords,
                        level,
                        m.spec_mask(),
                        x,
                        y,
                    ),
                Err(e) => r == Err::<QrMatrix<T>, QrError>(e),
            },
    {
        let ghost v = T::spec_version() as int;
        let version = T::version();
        let mut codewords = new_data_ecc_buf::<T>();
        let ghost zeros = codewords@;
        let mode = match self.mode {
            Some(mode) => mode,
            None => EncodeMode::detect(data),
        };
        let ecc_level = match self.ecc_level {
            Some(ecc_level) => ecc_level,
            None => match best_ecc_level::<T>(mode, data.len()) {
                Ok(level) => level,
                Err(e) => {
                    return Err(e);
                },
            },
        };
        proof {
            lemma_table_facts(version as int);
            assert(level_table_facts(v, ecc_level));
        }
        let encoded = match EncodedData::<T>::encode(data, mode, ecc_level, &mut codewords) {
            Ok(encoded) => encoded,
            Err(e) => {
                return Err(e);
            },
        };
        let rs = ReedSolomon::new();
        let generators = VersionGeneratorTable::build::<T>();
        let generator = generators.for_level(ecc_level);
        let ghost before = codewords@;
        interleave::<T>(&mut codewords, encoded, ecc_level, &rs, generator);
        proof {
            let data_len = data_codewords_of(v, ecc_level) as int;
            assert(zeros.skip(data_len) =~= Seq::new(
                (total_codewords_of(v) - data_codewords_of(v, ecc_level)) as nat,
                |i: int| 0u8,
            ));
        }
        Ok(QrMatrix::<T>::from_codewords(codewords.as_slice(), ecc_level))
    }
}

impl<T: Version> Clone for QrBuilder<T> {
    /// A builder with the same pinned mode and ECC level.
    fn clone(&self) -> (r: Self)
        ensures
            r.spec_mode() == self.spec_mode(),
            r.spec_ecc_level() == self.spec_ecc_level(),
    {
        Self { mode: self.mode, ecc_level: self.ecc_level, _marker: PhantomData }
    }
}

impl<T: Version> Default for QrBuilder<T> {
    /// A builder with automatic mode and ECC selection, as [`QrBuilder::new`].
    fn default() -> (r: Self)
        ensures
            r.spec_mode() is None,
            r.spec_ecc_level() is None,
    {
        Self::new()
    }
}

/// `build` succeeds exactly when the mode in use can represent the data
/// and the payload fits the pinned ECC level, or with automatic selection
/// the weakest level L. Representable data that does not fit is reported
/// as [`QrError::Overflow`]; data the mode cannot represent, with a payload
/// that fits, as [`QrError::DataInvalid`].
pub proof fn lemma_build_succeeds_iff_fits(
    version: int,
    mode: Option<EncodeMode>,
    level: Option<EccLevel>,
    data: Seq<u8>,
)
    requires
        1 <= version <= 40,
    ensures
        (build_codewords(version, mode, level, data) is Ok) == (representable(
            build_mode(mode, data),
            data,
        ) && fits_spec(
            build_mode(mode, data),
            version,
            data.len() as int,
            match level {
                Some(l) => l,
                None => EccLevel::L,
            },
        )),
        representable(build_mode(mode, data), data) && !fits_spec(
            build_mode(mode, data),
            version,
            data.len() as int,
            match level {
                Some(l) => l,
                None => EccLevel::L,
            },
        ) ==> build_codewords(version, mode, level, data) == Err::<(EccLevel, Seq<u8>), QrError>(
            QrError::Overflow,
        ),
        !representable(build_mode(mode, data), data) && fits_spec(
            build_mode(mode, data),
            version,
            data.len() as int,
            match level {
                Some(l) => l,
                None => EccLevel::L,
            },
        ) ==> build_codewords(version, mode, level, data) == Err::<(EccLevel, Seq<u8>), QrError>(
            QrError::DataInvalid,
        ),
{
    let m = build_mode(mode, data);
    lemma_table_facts(version);
    assert(level_table_facts(version, EccLevel::L));
    assert(level_table_facts(version, EccLevel::M));
    assert(level_table_facts(version, EccLevel::Q));
    assert(level_table_facts(version, EccLevel::H));
    match build_level(version, mode, level, data) {
        Ok(l) => {
            if representable(m, data) {
                lemma_encoding_succeeds_iff_fits(version, m, l, data);
            } else {
                lemma_encoding_rejects_unrepresentable(version, m, l, data);
            }
        },
        Err(e) => {},
    }
}

} // verus!
