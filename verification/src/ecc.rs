//! Reed-Solomon error correction over GF(256) with the QR field polynomial
//! x^8 + x^4 + x^3 + x^2 + 1 (0x11D): exponential and logarithm tables,
//! generator polynomials, and the ECC codewords of a data block.

use vstd::prelude::*;

use crate::gf::{
    exp_table_spec, gf_exp, gf_log, gf_product, last_exponent, lemma_exp_of_log, lemma_product_small,
    lemma_table_mul_is_product, log_table_spec, xtime_spec,
};
use crate::helper::{
    valid_version, block_count_for, ecc_codewords_for, ecc_per_block_of, lemma_table_facts, level_table_facts,
    MAX_ECC_CODEWORDS,
};
use crate::types::{level_at, level_index, EccLevel};
use crate::version::Version;

verus! {

/// One round of building a generator polynomial: coefficient `j` becomes
/// `poly[j] * root + poly[j + 1]` in GF(256), the last one `poly[j] * root`.
pub open spec fn generator_step(poly: Seq<u8>, root: u8) -> Seq<u8> {
    Seq::new(
        poly.len(),
        |j: int|
            if j + 1 < poly.len() {
                gf_product(poly[j], root) ^ poly[j + 1]
            } else {
                gf_product(poly[j], root)
            },
    )
}

/// The `degree` coefficients after `rounds` rounds of `generator_step`
/// with the roots `2^0, 2^1, ...`, starting from `0, ..., 0, 1`.
pub open spec fn generator_rounds(degree: nat, rounds: nat) -> Seq<u8>
    decreases rounds,
{
    if rounds == 0 {
        Seq::new(degree, |j: int| if j == degree - 1 {
            1u8
        } else {
            0u8
        })
    } else {
        generator_step(generator_rounds(degree, (rounds - 1) as nat), gf_exp((rounds - 1) as nat))
    }
}

/// The coefficients of the Reed-Solomon generator polynomial of `degree`,
/// without its leading one: `degree` rounds of `generator_step`.
pub open spec fn generator_poly(degree: nat) -> Seq<u8> {
    generator_rounds(degree, degree)
}

/// Feeds one data byte into the remainder register: with `factor` the byte
/// plus the first register entry, entry `i` becomes entry `i + 1` plus
/// `generator[i] * factor` in GF(256), the last one `generator[i] * factor`.
pub open spec fn rs_step(remainder: Seq<u8>, generator: Seq<u8>, byte: u8) -> Seq<u8> {
    let factor = byte ^ remainder[0];
    Seq::new(
        remainder.len(),
        |i: int|
            if i + 1 < remainder.len() {
                remainder[i + 1] ^ gf_product(generator[i], factor)
            } else {
                gf_product(generator[i], factor)
            },
    )
}

/// The ECC codewords of a block: the remainder register after feeding it
/// the data bytes in order, starting from zeros.
pub open spec fn rs_remainder(data: Seq<u8>, generator: Seq<u8>) -> Seq<u8>
    decreases data.len(),
{
    if data.len() == 0 {
        Seq::new(generator.len(), |i: int| 0u8)
    } else {
        rs_step(rs_remainder(data.drop_last(), generator), generator, data.last())
    }
}

/// Whether some level before `upto` points at stored entry `i`.
spec fn slot_used(indices: Seq<u8>, upto: int, i: int) -> bool {
    exists|l: int| 0 <= l < upto && indices[l] == i
}

/// The four ECC levels in table order.
const ECC_LEVELS: [EccLevel; 4] = [EccLevel::L, EccLevel::M, EccLevel::Q, EccLevel::H];

/// The Reed-Solomon generator polynomials one version needs: one entry per
/// distinct ECC codewords-per-block count of its four levels.
#[derive(Debug, Clone, Copy, PartialEq, Eq)]
pub struct VersionGeneratorTable {
    level_indices: [u8; 4],
    degrees: [u8; 4],
    coefficients: [[u8; MAX_ECC_CODEWORDS]; 4],
}

impl VersionGeneratorTable {
    /// The stored entries are a prefix of non-zero, distinct degrees followed
    /// by zeros, and every level points at a stored entry.
    #[verifier::type_invariant]
    spec fn well_formed(self) -> bool {
        &&& 0 < self.stored() <= 4
        &&& forall|i: int| 0 <= i < self.stored() ==> 1 <= #[trigger] self.degrees@[i] <= MAX_ECC_CODEWORDS
        &&& forall|i: int| self.stored() <= i < 4 ==> #[trigger] self.degrees@[i] == 0
        &&& forall|l: int| 0 <= l < 4 ==> #[trigger] self.level_indices@[l] < self.stored()
    }

    /// The number of stored generator polynomials.
    pub closed spec fn stored(self) -> int {
        if self.degrees@[0] == 0 {
            0
        } else if self.degrees@[1] == 0 {
            1
        } else if self.degrees@[2] == 0 {
            2
        } else if self.degrees@[3] == 0 {
            3
        } else {
            4
        }
    }

    /// The degree of the stored polynomial at position `i`.
    pub closed spec fn stored_degree(self, i: int) -> u8 {
        self.degrees@[i]
    }

    /// The degree of the generator polynomial used at `level`.
    pub closed spec fn degree_for(self, level: EccLevel) -> u8 {
        self.degrees@[self.level_indices@[level_index(level)] as int]
    }

    /// The position of the stored polynomial used at `level`.
    pub closed spec fn slot_for(self, level: EccLevel) -> int {
        self.level_indices@[level_index(level)] as int
    }

    /// Whether some level uses a generator polynomial of degree `degree`.
    pub open spec fn degree_used(self, degree: u8) -> bool {
        exists|level: EccLevel| #[trigger] self.degree_for(level) == degree
    }

    /// The generator polynomial used at `level`.
    pub closed spec fn generator_for(self, level: EccLevel) -> Seq<u8> {
        let index = self.level_indices@[level_index(level)] as int;
        self.coefficients@[index]@.take(self.degrees@[index] as int)
    }

    /// Builds the generator polynomials of version `T`: one per distinct
    /// ECC codewords-per-block count of its four levels.
    #[verifier::rlimit(40)]
    pub fn build<T: Version>() -> (r: Self)
        ensures
            forall|level: EccLevel|
                #[trigger] r.degree_for(level) == ecc_per_block_of(T::spec_version() as int, level)
                    && r.generator_for(level) == generator_poly(
                    ecc_per_block_of(T::spec_version() as int, level) as nat,
                ),
            forall|i: int, j: int|
                0 <= i < j < r.stored() ==> r.stored_degree(i) != r.stored_degree(j),
            forall|i: int| 0 <= i < r.stored() ==> #[trigger] r.degree_used(r.stored_degree(i)),
            0 < r.stored() <= 4,
            forall|level: EccLevel|
                0 <= #[trigger] r.slot_for(level) < r.stored() && r.stored_degree(r.slot_for(level))
                    == r.degree_for(level),
    {
        let version = T::version();
        proof {
            lemma_table_facts(version as int);
        }
        let rs = ReedSolomon::new();
        let mut level_indices = [0u8; 4];
        let mut degrees = [0u8; 4];
        let mut coefficients = [[0u8; MAX_ECC_CODEWORDS]; 4];
        let mut unique_count: usize = 0;
        let mut position: usize = 0;
        while position < 4
            invariant
                valid_version(version as int),
                version == T::spec_version(),
                unique_count <= position <= 4,
                position > 0 ==> unique_count > 0,
                ECC_LEVELS@ == seq![EccLevel::L, EccLevel::M, EccLevel::Q, EccLevel::H],
                forall|i: int|
                    0 <= i < unique_count ==> 7 <= #[trigger] degrees@[i] <= MAX_ECC_CODEWORDS
                        && coefficients@[i]@.take(degrees@[i] as int) == generator_poly(
                        degrees@[i] as nat,
                    ),
                forall|i: int| unique_count <= i < 4 ==> #[trigger] degrees@[i] == 0,
                forall|i: int, j: int|
                    0 <= i < j < unique_count ==> degrees@[i] != degrees@[j],
                forall|l: int|
                    0 <= l < position ==> #[trigger] level_indices@[l] < unique_count
                        && degrees@[level_indices@[l] as int] == ecc_per_block_of(
                        version as int,
                        level_at(l),
                    ),
                forall|i: int|
                    0 <= i < unique_count ==> #[trigger] slot_used(level_indices@, position as int, i),
            decreases 4 - position,
        {
            let level = ECC_LEVELS[position];
            proof {
                lemma_table_facts(version as int);
            }
            assert(level == level_at(position as int));
            assert(level_table_facts(version as int, level));
            let degree = (ecc_codewords_for(version, level) / block_count_for(version, level)) as u8;
            let existing = Self::find_degree(&degrees, unique_count, degree);
            let table_index = if existing < unique_count {
                existing
            } else {
                degrees[unique_count] = degree;
                coefficients[unique_count] = rs.build_generator_coefficients(degree as usize);
                unique_count = unique_count + 1;
                unique_count - 1
            };
            let ghost previous_indices = level_indices@;
            level_indices[position] = table_index as u8;
            proof {
                assert forall|i: int| 0 <= i < unique_count implies #[trigger] slot_used(
                    level_indices@,
                    position + 1,
                    i,
                ) by {
                    if i == table_index {
                        assert(level_indices@[position as int] == i);
                    } else {
                        assert(slot_used(previous_indices, position as int, i));
                        let l = choose|l: int| 0 <= l < position && previous_indices[l] == i;
                        assert(level_indices@[l] == i);
                    }
                }
            }
            position = position + 1;
        }
        let r = Self { level_indices, degrees, coefficients };
        proof {
            assert(r.stored() == unique_count);
            assert forall|level: EccLevel| #[trigger] r.degree_for(level) == ecc_per_block_of(
                T::spec_version() as int,
                level,
            ) && r.generator_for(level) == generator_poly(
                ecc_per_block_of(T::spec_version() as int, level) as nat,
            ) by {
                assert(level_at(level_index(level)) == level);
                let l = level_index(level);
                assert(level_indices@[l] < unique_count);
            }
            assert forall|i: int| 0 <= i < r.stored() implies #[trigger] r.degree_used(
                r.stored_degree(i),
            ) by {
                assert(slot_used(level_indices@, 4, i));
                let l = choose|l: int| 0 <= l < 4 && level_indices@[l] == i;
                let level = level_at(l);
                assert(level_index(level) == l);
                assert(r.level_indices@[l] == i);
                assert(r.degree_for(level) == r.stored_degree(i));
            }
            assert forall|level: EccLevel|
                0 <= #[trigger] r.slot_for(level) < r.stored() && r.stored_degree(r.slot_for(level))
                    == r.degree_for(level) by {
                assert(level_at(level_index(level)) == level);
                assert(level_indices@[level_index(level)] < unique_count);
            }
        }
        r
    }

    /// Returns the position of `target` among the first `count` degrees, or
    /// `count` when it is not there.
    fn find_degree(degrees: &[u8; 4], count: usize, target: u8) -> (r: usize)
        requires
            count <= 4,
        ensures
            r <= count,
            r < count ==> degrees@[r as int] == target,
            r == count ==> forall|i: int| 0 <= i < count ==> degrees@[i] != target,
    {
        let mut index: usize = 0;
        while index < count
            invariant
                index <= count <= 4,
                forall|i: int| 0 <= i < index ==> degrees@[i] != target,
            decreases count - index,
        {
            if degrees[index] == target {
                return index;
            }
            index = index + 1;
        }
        count
    }

    /// Returns the generator polynomial used at `level`.
    pub fn for_level(&self, level: EccLevel) -> (r: &[u8])
        ensures
            r@ == self.generator_for(level),
            1 <= r@.len() <= MAX_ECC_CODEWORDS,
            r@.len() == self.degree_for(level),
    {
        proof {
            use_type_invariant(self);
        }
        let index = self.level_indices[level.index()] as usize;
        let degree = self.degrees[index] as usize;
        vstd::slice::slice_subrange(self.coefficients[index].as_slice(), 0, degree)
    }

    /// Returns the number of stored generator polynomials.
    pub fn unique_degree_count(&self) -> (r: usize)
        ensures
            r == self.stored(),
    {
        proof {
            use_type_invariant(self);
        }
        let mut count: usize = 0;
        while count < 4 && self.degrees[count] != 0
            invariant
                count <= 4,
                count <= self.stored(),
                0 < self.stored() <= 4,
                forall|i: int| self.stored() <= i < 4 ==> #[trigger] self.degrees@[i] == 0,
                forall|i: int| 0 <= i < self.stored() ==> 1 <= #[trigger] self.degrees@[i],
            decreases 4 - count,
        {
            count = count + 1;
        }
        count
    }
}

/// Reed-Solomon arithmetic over GF(256), holding the exponential and
/// logarithm tables.
pub struct ReedSolomon {
    exp_table: [u8; 255],
    log_table: [u8; 256],
}

impl ReedSolomon {
    #[verifier::type_invariant]
    spec fn tables_match(self) -> bool {
        &&& self.exp_table@ == exp_table_spec()
        &&& self.log_table@ == log_table_spec()
    }

    /// The exponential table: entry `i` is `2^i` in GF(256).
    pub closed spec fn spec_exp_table(self) -> Seq<u8> {
        self.exp_table@
    }

    /// The logarithm table: entry `v` is the discrete logarithm of `v`.
    pub closed spec fn spec_log_table(self) -> Seq<u8> {
        self.log_table@
    }

    /// Builds the exponential and logarithm tables.
    pub fn new() -> (r: Self)
        ensures
            r.spec_exp_table() == exp_table_spec(),
            r.spec_log_table() == log_table_spec(),
    {
        let exp_table = Self::build_exp_table();
        let log_table = Self::build_log_table();
        ReedSolomon { exp_table, log_table }
    }

    /// Returns the ECC codewords of `data` for a generator of `out.len()`
    /// coefficients, written into `out`.
    pub fn generate_ecc_into(&self, data: &[u8], out: &mut Vec<u8>)
        requires
            1 <= old(out)@.len() <= MAX_ECC_CODEWORDS,
        ensures
            final(out)@ == rs_remainder(data@, generator_poly(old(out)@.len())),
    {
        let generator = self.build_generator_coefficients(out.len());
        let gen = vstd::slice::slice_subrange(generator.as_slice(), 0, out.len());
        proof {
            assert(gen@ =~= generator_poly(out@.len()));
        }
        self.generate_ecc_with_generator(data, out, gen);
    }

    /// Returns the ECC codewords of `data` for `generator`, written into `out`:
    /// the remainder of `data(x) * x^n` divided by the generator polynomial.
    pub fn generate_ecc_with_generator(&self, data: &[u8], out: &mut Vec<u8>, generator: &[u8])
        requires
            old(out)@.len() == generator@.len(),
        ensures
            final(out)@.len() == old(out)@.len(),
            old(out)@.len() > 0 ==> final(out)@ == rs_remainder(data@, generator@),
    {
        let n = out.len();
        let mut fill: usize = 0;
        while fill < n
            invariant
                n == out@.len(),
                fill <= n,
                forall|i: int| 0 <= i < fill ==> out@[i] == 0u8,
            decreases n - fill,
        {
            out.set(fill, 0);
            fill = fill + 1;
        }
        if n == 0 {
            return;
        }
        assert(out@ =~= rs_remainder(data@.take(0), generator@));
        let mut position: usize = 0;
        while position < data.len()
            invariant
                n == out@.len(),
                n == generator@.len(),
                n > 0,
                position <= data@.len(),
                out@ == rs_remainder(data@.take(position as int), generator@),
            decreases data@.len() - position,
        {
            let byte = data[position];
            let factor = byte ^ out[0];
            let ghost before = out@;
            let mut index: usize = 0;
            while index + 1 < n
                invariant
                    n == out@.len(),
                    n == generator@.len(),
                    n == before.len(),
                    n > 0,
                    index < n,
                    factor == byte ^ before[0],
                    forall|i: int| 0 <= i < index ==> out@[i] == rs_step(before, generator@, byte)[i],
                    forall|i: int| index <= i < n ==> out@[i] == before[i],
                decreases n - index,
            {
                let next = out[index + 1] ^ self.gf_mul(generator[index], factor);
                out.set(index, next);
                index = index + 1;
            }
            let last = self.gf_mul(generator[n - 1], factor);
            out.set(n - 1, last);
            proof {
                assert(out@ =~= rs_step(before, generator@, byte));
                assert(data@.take(position + 1).drop_last() =~= data@.take(position as int));
            }
            position = position + 1;
        }
        assert(data@.take(data@.len() as int) =~= data@);
    }

    /// Returns the coefficients of the generator polynomial of `degree`
    /// (highest power first, without the leading 1); the entries past
    /// `degree` are zero.
    pub fn build_generator_coefficients(&self, degree: usize) -> (r: [u8; MAX_ECC_CODEWORDS])
        requires
            1 <= degree <= MAX_ECC_CODEWORDS,
        ensures
            r@.take(degree as int) == generator_poly(degree as nat),
            forall|j: int| degree <= j < MAX_ECC_CODEWORDS ==> r@[j] == 0,
    {
        let mut result = [0u8; MAX_ECC_CODEWORDS];
        result[degree - 1] = 1;
        let mut root: u8 = 1;
        let mut outer: usize = 0;
        assert(result@.take(degree as int) =~= generator_rounds(degree as nat, 0));
        while outer < degree
            invariant
                1 <= degree <= MAX_ECC_CODEWORDS,
                outer <= degree,
                root == gf_exp(outer as nat),
                result@.take(degree as int) == generator_rounds(degree as nat, outer as nat),
                forall|j: int| degree <= j < MAX_ECC_CODEWORDS ==> result@[j] == 0,
            decreases degree - outer,
        {
            let ghost before = result@.take(degree as int);
            let mut index: usize = 0;
            while index < degree
                invariant
                    1 <= degree <= MAX_ECC_CODEWORDS,
                    index <= degree,
                    before.len() == degree,
                    forall|j: int|
                        0 <= j < index ==> result@[j] == generator_step(before, root)[j],
                    forall|j: int| index <= j < degree ==> result@[j] == before[j],
                    forall|j: int| degree <= j < MAX_ECC_CODEWORDS ==> result@[j] == 0,
                decreases degree - index,
            {
                let scaled = self.gf_mul(result[index], root);
                if index + 1 < degree {
                    result[index] = scaled ^ result[index + 1];
                } else {
                    result[index] = scaled;
                }
                index = index + 1;
            }
            proof {
                assert(result@.take(degree as int) =~= generator_step(before, root));
            }
            root = self.gf_mul(root, 0x02);
            proof {
                lemma_product_small(gf_exp(outer as nat));
            }
            outer = outer + 1;
        }
        result
    }

    /// Multiplies two elements of GF(256) through the logarithm tables.
    pub fn gf_mul(&self, left: u8, right: u8) -> (r: u8)
        ensures
            r == gf_product(left, right),
    {
        proof {
            use_type_invariant(self);
            lemma_table_mul_is_product(left, right);
        }
        if left == 0 || right == 0 {
            return 0;
        }
        proof {
            lemma_exp_of_log(left);
            lemma_exp_of_log(right);
            assert(self.log_table@[left as int] == gf_log(left) as u8);
            assert(self.log_table@[right as int] == gf_log(right) as u8);
        }
        let log_left = self.log_table[left as usize] as usize;
        let log_right = self.log_table[right as usize] as usize;
        self.exp_table[(log_left + log_right) % 255]
    }

    /// Multiplies an element by x (the element 2).
    pub fn xtime(value: u8) -> (r: u8)
        ensures
            r == xtime_spec(value),
    {
        let shifted = value << 1;
        if (value & 0x80) != 0 {
            shifted ^ 0x1D
        } else {
            shifted
        }
    }

    /// Builds the exponential table: entry `i` is 2 to the power `i`.
    pub fn build_exp_table() -> (r: [u8; 255])
        ensures
            r@ == exp_table_spec(),
    {
        let mut table = [0u8; 255];
        let mut value: u8 = 1;
        let mut index: usize = 0;
        while index < 255
            invariant
                index <= 255,
                value == gf_exp(index as nat),
                forall|i: int| 0 <= i < index ==> table@[i] == gf_exp(i as nat),
            decreases 255 - index,
        {
            table[index] = value;
            value = Self::xtime(value);
            index = index + 1;
        }
        assert(table@ =~= exp_table_spec());
        table
    }

    /// Builds the logarithm table from the exponential table.
    pub fn build_log_table() -> (r: [u8; 256])
        ensures
            r@ == log_table_spec(),
    {
        let exp = Self::build_exp_table();
        let mut table = [0u8; 256];
        let mut index: usize = 0;
        while index < 255
            invariant
                index <= 255,
                exp@ == exp_table_spec(),
                forall|v: int| 0 <= v < 256 ==> table@[v] == last_exponent(v as u8, index as nat) as u8,
            decreases 255 - index,
        {
            let value = exp[index];
            table[value as usize] = index as u8;
            proof {
                assert forall|v: int| 0 <= v < 256 implies table@[v] == last_exponent(
                    v as u8,
                    (index + 1) as nat,
                ) as u8 by {
                    if v == value as int {
                        assert(gf_exp(index as nat) == v as u8);
                    } else {
                        assert(gf_exp(index as nat) != v as u8);
                    }
                }
            }
            index = index + 1;
        }
        assert(table@ =~= log_table_spec());
        table
    }
}

} // verus!
