//! Block layout and interleaving: the data codewords are split into
//! Reed-Solomon blocks, each block gets its ECC codewords, and the final
//! codeword sequence takes the data and the ECC codewords of the blocks in
//! turn.

use core::marker::PhantomData;

use vstd::prelude::*;
use vstd::arithmetic::div_mod::{lemma_fundamental_div_mod, lemma_fundamental_div_mod_converse};
use vstd::set_lib::{lemma_int_range, lemma_len_subset, set_int_range};

use crate::bits::{byte_with_bit, lemma_byte_set_bit, lemma_index_split, lemma_lsb_set, lsb_bits};
use crate::ecc::{rs_remainder, ReedSolomon};
use crate::encoder::EncodedData;
use crate::helper::{
    block_count_for, data_capacity_for, ecc_codewords_for, ecc_codewords_of, ecc_per_block_of,
    lemma_table_facts, level_table_facts, total_codewords_of,
};
use crate::types::{blocks_of, data_codewords_of, EccLevel};
use crate::version::{new_interleave_visited_buf, Version};

verus! {

/// Data codewords of a short block: `total / blocks`.
pub open spec fn short_len(total: int, blocks: int) -> int {
    total / blocks
}

/// Number of short blocks; the remaining `total % blocks` blocks hold one
/// more data codeword.
pub open spec fn short_count(total: int, blocks: int) -> int {
    blocks - total % blocks
}

/// Data codewords of block `block`.
pub open spec fn block_len(total: int, blocks: int, block: int) -> int {
    short_len(total, blocks) + if block >= short_count(total, blocks) {
        1int
    } else {
        0int
    }
}

/// Position of the first data codeword of block `block` in the data codewords.
pub open spec fn block_start(total: int, blocks: int, block: int) -> int {
    block * short_len(total, blocks) + if block > short_count(total, blocks) {
        block - short_count(total, blocks)
    } else {
        0int
    }
}

/// Position in the interleaved sequence of data codeword `row` of block
/// `block`: rows are taken in turn from every block, and the extra last
/// codewords of the long blocks come after.
pub open spec fn interleaved_position(total: int, blocks: int, block: int, row: int) -> int {
    if row < short_len(total, blocks) {
        row * blocks + block
    } else {
        short_len(total, blocks) * blocks + (block - short_count(total, blocks))
    }
}

/// The position in the interleaved sequence of data codeword `source`.
pub open spec fn interleave_target(total: int, blocks: int, source: int) -> int {
    let short = short_len(total, blocks);
    let shorts = short_count(total, blocks);
    let longest = short + if total % blocks > 0 {
        1int
    } else {
        0int
    };
    let short_total = shorts * short;
    if source < short_total {
        interleaved_position(total, blocks, source / short, source % short)
    } else {
        let index = source - short_total;
        interleaved_position(total, blocks, shorts + index / longest, index % longest)
    }
}

/// The data codeword at interleaved position `position`.
pub open spec fn interleave_source(total: int, blocks: int, position: int) -> int {
    let short = short_len(total, blocks);
    if position < short * blocks {
        block_start(total, blocks, position % blocks) + position / blocks
    } else {
        block_start(total, blocks, short_count(total, blocks) + (position - short * blocks))
            + short
    }
}

/// A valid block split: at least one block, and no block is empty.
pub open spec fn valid_split(total: int, blocks: int) -> bool {
    1 <= blocks <= total
}

/// Facts about the short and long blocks.
proof fn lemma_split_facts(total: int, blocks: int)
    requires
        valid_split(total, blocks),
    ensures
        short_len(total, blocks) >= 1,
        0 <= total % blocks < blocks,
        1 <= short_count(total, blocks) <= blocks,
        total == short_count(total, blocks) * short_len(total, blocks) + (total % blocks) * (
        short_len(total, blocks) + 1),
        total == short_len(total, blocks) * blocks + total % blocks,
{
    let short = short_len(total, blocks);
    let rem = total % blocks;
    lemma_fundamental_div_mod(total, blocks);
    assert(total == blocks * short + rem);
    assert(short >= 1) by (nonlinear_arith)
        requires
            total == blocks * short + rem,
            0 <= rem < blocks,
            blocks <= total,
    ;
    assert(total == (blocks - rem) * short + rem * (short + 1)) by (nonlinear_arith)
        requires
            total == blocks * short + rem,
    ;
    assert(total == short * blocks + rem) by (nonlinear_arith)
        requires
            total == blocks * short + rem,
    ;
}

/// The interleaving maps the data codewords into themselves, and
/// `interleave_source` undoes it.
pub proof fn lemma_target_then_source(total: int, blocks: int, source: int)
    requires
        valid_split(total, blocks),
        0 <= source < total,
    ensures
        0 <= interleave_target(total, blocks, source) < total,
        interleave_source(total, blocks, interleave_target(total, blocks, source)) == source,
{
    lemma_split_facts(total, blocks);
    let short = short_len(total, blocks);
    let shorts = short_count(total, blocks);
    let rem = total % blocks;
    let longest = short + if rem > 0 {
        1int
    } else {
        0int
    };
    let short_total = shorts * short;
    let target = interleave_target(total, blocks, source);
    if source < short_total {
        let block = source / short;
        let row = source % short;
        lemma_fundamental_div_mod(source, short);
        assert(source == short * block + row);
        assert(0 <= row < short);
        assert(0 <= block < shorts) by (nonlinear_arith)
            requires
                source == short * block + row,
                0 <= row < short,
                0 <= source < shorts * short,
        ;
        assert(target == row * blocks + block);
        assert(0 <= row * blocks + block < short * blocks) by (nonlinear_arith)
            requires
                0 <= row < short,
                0 <= block < shorts <= blocks,
        ;
        lemma_fundamental_div_mod_converse(target, blocks, row, block);
        assert(block_start(total, blocks, block) == block * short);
        assert(source == block * short + row) by (nonlinear_arith)
            requires
                source == short * block + row,
        ;
    } else {
        let index = source - short_total;
        assert(rem > 0) by (nonlinear_arith)
            requires
                total == shorts * short + rem * (short + 1),
                rem >= 0,
                short >= 1,
                source >= shorts * short,
                source < total,
        ;
        assert(longest == short + 1);
        let block_off = index / longest;
        let row = index % longest;
        lemma_fundamental_div_mod(index, longest);
        assert(index == longest * block_off + row);
        assert(0 <= block_off < rem) by (nonlinear_arith)
            requires
                index == longest * block_off + row,
                0 <= row < longest,
                0 <= index,
                index < rem * longest,
        ;
        let block = shorts + block_off;
        assert(block_start(total, blocks, block) == block * short + block_off);
        if row < short {
            assert(target == row * blocks + block);
            assert(0 <= row * blocks + block < short * blocks) by (nonlinear_arith)
                requires
                    0 <= row < short,
                    0 <= block < blocks,
            ;
            lemma_fundamental_div_mod_converse(target, blocks, row, block);
            assert(source == block * short + block_off + row) by (nonlinear_arith)
                requires
                    source == shorts * short + (short + 1) * block_off + row,
                    block == shorts + block_off,
            ;
        } else {
            assert(row == short);
            assert(target == short * blocks + block_off);
            assert(source == block * short + block_off + short) by (nonlinear_arith)
                requires
                    source == shorts * short + (short + 1) * block_off + row,
                    block == shorts + block_off,
                    row == short,
            ;
        }
    }
}

/// `interleave_source` maps the interleaved positions into the data
/// codewords, and the interleaving undoes it.
pub proof fn lemma_source_then_target(total: int, blocks: int, position: int)
    requires
        valid_split(total, blocks),
        0 <= position < total,
    ensures
        0 <= interleave_source(total, blocks, position) < total,
        interleave_target(total, blocks, interleave_source(total, blocks, position)) == position,
{
    lemma_split_facts(total, blocks);
    let short = short_len(total, blocks);
    let shorts = short_count(total, blocks);
    let rem = total % blocks;
    let longest = short + if rem > 0 {
        1int
    } else {
        0int
    };
    let short_total = shorts * short;
    let source = interleave_source(total, blocks, position);
    if position < short * blocks {
        let row = position / blocks;
        let block = position % blocks;
        lemma_fundamental_div_mod(position, blocks);
        assert(position == blocks * row + block);
        assert(0 <= row < short) by (nonlinear_arith)
            requires
                position == blocks * row + block,
                0 <= block < blocks,
                0 <= position < short * blocks,
        ;
        if block < shorts {
            assert(block_start(total, blocks, block) == block * short);
            assert(source == block * short + row);
            assert(0 <= source < short_total) by (nonlinear_arith)
                requires
                    source == block * short + row,
                    0 <= block < shorts,
                    0 <= row < short,
                    short_total == shorts * short,
            ;
            lemma_fundamental_div_mod_converse(source, short, block, row);
            assert(position == row * blocks + block) by (nonlinear_arith)
                requires
                    position == blocks * row + block,
            ;
        } else {
            let block_off = block - shorts;
            assert(block_start(total, blocks, block) == block * short + block_off);
            assert(rem > 0);
            assert(longest == short + 1);
            assert(source == short_total + block_off * longest + row) by (nonlinear_arith)
                requires
                    source == block * short + block_off + row,
                    block == shorts + block_off,
                    short_total == shorts * short,
                    longest == short + 1,
            ;
            assert(0 <= block_off < rem);
            assert(source < total) by (nonlinear_arith)
                requires
                    source == short_total + block_off * longest + row,
                    0 <= block_off < rem,
                    0 <= row < short,
                    longest == short + 1,
                    total == short_total + rem * longest,
            ;
            assert(source >= short_total) by (nonlinear_arith)
                requires
                    source == short_total + block_off * longest + row,
                    0 <= block_off,
                    0 <= row,
                    longest >= 0,
            ;
            lemma_fundamental_div_mod_converse(source - short_total, longest, block_off, row);
            assert(position == row * blocks + block) by (nonlinear_arith)
                requires
                    position == blocks * row + block,
            ;
        }
    } else {
        let block_off = position - short * blocks;
        assert(0 <= block_off < rem);
        let block = shorts + block_off;
        assert(block_start(total, blocks, block) == block * short + block_off);
        assert(rem > 0);
        assert(longest == short + 1);
        assert(source == short_total + block_off * longest + short) by (nonlinear_arith)
            requires
                source == block * short + block_off + short,
                block == shorts + block_off,
                short_total == shorts * short,
                longest == short + 1,
        ;
        assert(short_total <= source < total) by (nonlinear_arith)
            requires
                source == short_total + block_off * longest + short,
                0 <= block_off < rem,
                longest == short + 1,
                total == short_total + rem * longest,
                short >= 1,
        ;
        lemma_fundamental_div_mod_converse(source - short_total, longest, block_off, short);
    }
}

/// The data codewords of block `block`.
pub open spec fn block_data(data: Seq<u8>, total: int, blocks: int, block: int) -> Seq<u8> {
    data.subrange(
        block_start(total, blocks, block),
        block_start(total, blocks, block) + block_len(total, blocks, block),
    )
}

/// The final codeword sequence: the data codewords of `codewords[..total]`
/// in interleaved order, then ECC codeword `e` of every block in turn for
/// each `e`, then the rest of `codewords` unchanged.
pub open spec fn interleave_spec(
    codewords: Seq<u8>,
    total: int,
    blocks: int,
    ecc_per_block: int,
    generator: Seq<u8>,
) -> Seq<u8> {
    Seq::new(
        codewords.len(),
        |p: int|
            if p < total {
                codewords[interleave_source(total, blocks, p)]
            } else if p < total + ecc_per_block * blocks {
                rs_remainder(
                    block_data(codewords, total, blocks, (p - total) % blocks),
                    generator,
                )[(p - total) / blocks]
            } else {
                codewords[p]
            },
    )
}

/// Computes the ECC codewords of every block of the data codewords at the
/// front of `codewords`, places them after the data codewords in
/// interleaved order, and interleaves the data codewords.
pub fn interleave<T: Version>(
    codewords: &mut Vec<u8>,
    encoded: EncodedData<T>,
    level: EccLevel,
    rs: &ReedSolomon,
    generator: &[u8],
)
    requires
        old(codewords)@.len() == total_codewords_of(T::spec_version() as int),
        encoded.data_len == data_codewords_of(T::spec_version() as int, level),
        generator@.len() == ecc_per_block_of(T::spec_version() as int, level),
    ensures
        final(codewords)@ == interleave_spec(
            old(codewords)@,
            data_codewords_of(T::spec_version() as int, level) as int,
            blocks_of(T::spec_version() as int, level) as int,
            ecc_per_block_of(T::spec_version() as int, level),
            generator@,
        ),
{
    let version_number = T::version();
    let ghost version = version_number as int;
    proof {
        lemma_table_facts(version);
        assert(level_table_facts(version, level));
        let ecc_total = ecc_codewords_of(version, level);
        let block_total = blocks_of(version, level) as int;
        lemma_fundamental_div_mod(ecc_total, block_total);
        assert(ecc_per_block_of(version, level) * block_total == ecc_total) by (nonlinear_arith)
            requires
                ecc_total == block_total * (ecc_total / block_total) + ecc_total % block_total,
                ecc_total % block_total == 0,
                ecc_per_block_of(version, level) == ecc_total / block_total,
        ;
    }
    let layout = BlockLayout::<T>::new(level);
    let ghost total = layout.total();
    let ghost blocks = layout.block_count as int;
    let ghost epb = layout.ecc_codewords_per_block as int;
    let ghost initial = codewords@;
    let data_len = encoded.data_len;
    assert(data_len + epb * blocks == initial.len()) by (nonlinear_arith)
        requires
            data_len == total,
            epb * blocks == ecc_codewords_of(version, level),
            ecc_codewords_of(version, level) == total_codewords_of(version) - total,
            initial.len() == total_codewords_of(version),
    ;
    let mut ecc = vec![0u8; layout.ecc_codewords_per_block];
    let mut block: usize = 0;
    while block < layout.block_count
        invariant
            layout.wf(),
            total == layout.total(),
            blocks == layout.block_count,
            epb == layout.ecc_codewords_per_block,
            data_len == total,
            epb >= 1,
            data_len + epb * blocks == initial.len(),
            initial.len() <= 3706,
            ecc@.len() == epb,
            generator@.len() == epb,
            block <= blocks,
            codewords@.len() == initial.len(),
            forall|p: int| 0 <= p < total ==> #[trigger] codewords@[p] == initial[p],
            forall|p: int|
                total <= p < initial.len() ==> #[trigger] codewords@[p] == if (p - total) % blocks
                    < block {
                    rs_remainder(block_data(initial, total, blocks, (p - total) % blocks), generator@)[(p - total) / blocks]
                } else {
                    initial[p]
                },
        decreases blocks - block,
    {
        assert(block * (layout.short_data_codewords + 1) <= 128 * 4097) by (nonlinear_arith)
            requires
                block < 128,
                layout.short_data_codewords <= 4096,
        ;
        let block_offset = layout.block_offset(block);
        let block_len = layout.data_codewords(block);
        let block_slice = vstd::slice::slice_subrange(codewords.as_slice(), block_offset, block_offset + block_len);
        proof {
            assert(block_slice@ =~= block_data(initial, total, blocks, block as int));
        }
        rs.generate_ecc_with_generator(block_slice, &mut ecc, generator);
        let ghost before = codewords@;
        let mut ecc_index: usize = 0;
        while ecc_index < layout.ecc_codewords_per_block
            invariant
                layout.wf(),
                total == layout.total(),
                blocks == layout.block_count,
                epb == layout.ecc_codewords_per_block,
                data_len == total,
                data_len + epb * blocks == initial.len(),
                initial.len() <= 3706,
                block < blocks,
                ecc@ == rs_remainder(block_data(initial, total, blocks, block as int), generator@),
                ecc@.len() == epb,
                ecc_index <= epb,
                codewords@.len() == initial.len(),
                forall|p: int|
                    0 <= p < initial.len() ==> #[trigger] codewords@[p] == if total <= p && (p
                        - total) % blocks == block && (p - total) / blocks < ecc_index {
                        ecc@[(p - total) / blocks]
                    } else {
                        before[p]
                    },
            decreases epb - ecc_index,
        {
            proof {
                assert(ecc_index * blocks + block < epb * blocks) by (nonlinear_arith)
                    requires
                        ecc_index < epb,
                        block < blocks,
                ;
            }
            let position = data_len + (ecc_index * layout.block_count) + block;
            proof {
                lemma_fundamental_div_mod_converse(
                    (position - total) as int,
                    blocks,
                    ecc_index as int,
                    block as int,
                );
            }
            let ghost prev = codewords@;
            codewords.set(position, ecc[ecc_index]);
            proof {
                assert forall|p: int| 0 <= p < initial.len() implies #[trigger] codewords@[p]
                    == if total <= p && (p - total) % blocks == block && (p - total) / blocks
                    < ecc_index + 1 {
                    ecc@[(p - total) / blocks]
                } else {
                    before[p]
                } by {
                    assert(prev[p] == if total <= p && (p - total) % blocks == block && (p - total)
                        / blocks < ecc_index {
                        ecc@[(p - total) / blocks]
                    } else {
                        before[p]
                    });
                    if p == position {
                        assert(codewords@[p] == ecc@[ecc_index as int]);
                    } else {
                        assert(codewords@[p] == prev[p]);
                        if total <= p && (p - total) % blocks == block && (p - total) / blocks
                            == ecc_index {
                            lemma_fundamental_div_mod((p - total) as int, blocks);
                            assert(p - total == ecc_index * blocks + block) by (nonlinear_arith)
                                requires
                                    p - total == blocks * ((p - total) / blocks) + (p - total)
                                        % blocks,
                                    (p - total) / blocks == ecc_index,
                                    (p - total) % blocks == block,
                            ;
                        }
                    }
                }
            }
            ecc_index = ecc_index + 1;
        }
        proof {
            assert forall|p: int| total <= p < initial.len() implies #[trigger] codewords@[p]
                == if (p - total) % blocks < block + 1 {
                rs_remainder(block_data(initial, total, blocks, (p - total) % blocks), generator@)[(p - total) / blocks]
            } else {
                initial[p]
            } by {
                lemma_fundamental_div_mod((p - total) as int, blocks);
                if (p - total) % blocks == block {
                    assert((p - total) / blocks < epb) by (nonlinear_arith)
                        requires
                            p < total + epb * blocks,
                            p - total == blocks * ((p - total) / blocks) + (p - total) % blocks,
                            0 <= (p - total) % blocks,
                            blocks > 0,
                    ;
                }
            }
        }
        block = block + 1;
    }
    layout.interleave_data_in_place(codewords, data_len);
    proof {
        let result = interleave_spec(initial, total, blocks, epb, generator@);
        assert forall|p: int| 0 <= p < initial.len() implies #[trigger] codewords@[p] == result[p] by {
            if p < total {
                lemma_source_then_target(total, blocks, p);
            } else {
                lemma_fundamental_div_mod((p - total) as int, blocks);
            }
        }
        assert(codewords@ =~= result);
    }
}

/// Whether the data codewords hold `total` codewords, and `result` is the
/// interleaving of `initial` in its first `total` entries and equal to it
/// after them.
pub open spec fn interleaved_prefix(initial: Seq<u8>, result: Seq<u8>, total: int, blocks: int) -> bool {
    &&& result.len() == initial.len()
    &&& forall|p: int|
        0 <= p < total ==> #[trigger] result[p] == initial[interleave_source(total, blocks, p)]
    &&& forall|p: int| total <= p < initial.len() ==> #[trigger] result[p] == initial[p]
}

/// The block structure of one version at one ECC level.
#[derive(Debug)]
pub struct BlockLayout<T: Version> {
    /// Number of Reed-Solomon blocks.
    pub block_count: usize,
    /// Number of blocks holding `short_data_codewords` data codewords.
    pub short_block_count: usize,
    /// Data codewords of a short block.
    pub short_data_codewords: usize,
    /// Data codewords of the longest block.
    pub max_data_codewords: usize,
    /// ECC codewords of every block.
    pub ecc_codewords_per_block: usize,
    pub _marker: PhantomData<T>,
}

impl<T: Version> BlockLayout<T> {
    /// The number of data codewords the layout splits.
    pub open spec fn total(self) -> int {
        self.short_data_codewords * self.block_count + (self.block_count - self.short_block_count)
    }

    /// The fields describe a split of `self.total()` data codewords.
    pub open spec fn wf(self) -> bool {
        &&& valid_split(self.total(), self.block_count as int)
        &&& self.total() <= 4096
        &&& self.block_count <= 128
        &&& self.short_data_codewords == short_len(self.total(), self.block_count as int)
        &&& self.short_block_count == short_count(self.total(), self.block_count as int)
        &&& self.max_data_codewords == self.short_data_codewords + if self.total() % (
        self.block_count as int) > 0 {
            1int
        } else {
            0int
        }
    }

    /// Builds the layout of version `T` at `level`.
    pub fn new(level: EccLevel) -> (r: Self)
        ensures
            r.wf(),
            r.total() == data_codewords_of(T::spec_version() as int, level),
            r.block_count == blocks_of(T::spec_version() as int, level),
            r.ecc_codewords_per_block == ecc_per_block_of(T::spec_version() as int, level),
    {
        let version = T::version();
        proof {
            lemma_table_facts(version as int);
            assert(level_table_facts(version as int, level));
        }
        let total_data_codewords = data_capacity_for(version, level);
        let block_count = block_count_for(version, level);
        let long_block_count = total_data_codewords % block_count;
        let short_data_codewords = total_data_codewords / block_count;
        proof {
            lemma_split_facts(total_data_codewords as int, block_count as int);
        }
        let r = Self {
            block_count,
            short_block_count: block_count - long_block_count,
            short_data_codewords,
            max_data_codewords: short_data_codewords + if long_block_count > 0 {
                1
            } else {
                0
            },
            ecc_codewords_per_block: ecc_codewords_for(version, level) / block_count,
            _marker: PhantomData,
        };
        assert(r.total() == total_data_codewords);
        r
    }

    /// Returns the number of data codewords of block `block_index`.
    pub fn data_codewords(&self, block_index: usize) -> (r: usize)
        requires
            self.wf(),
        ensures
            r == block_len(self.total(), self.block_count as int, block_index as int),
    {
        self.short_data_codewords + if block_index >= self.short_block_count {
            1
        } else {
            0
        }
    }

    /// Returns the position of the first data codeword of block `block_index`.
    pub fn block_offset(&self, block_index: usize) -> (r: usize)
        requires
            self.wf(),
            block_index * (self.short_data_codewords + 1) <= usize::MAX,
        ensures
            r == block_start(self.total(), self.block_count as int, block_index as int),
            block_index < self.block_count ==> r + block_len(
                self.total(),
                self.block_count as int,
                block_index as int,
            ) <= self.total(),
    {
        proof {
            if block_index < self.block_count {
                lemma_block_bounds(self.total(), self.block_count as int, block_index as int);
            }
            assert(block_index * self.short_data_codewords + block_index == block_index * (
            self.short_data_codewords + 1)) by (nonlinear_arith);
            assert(block_index * self.short_data_codewords >= 0) by (nonlinear_arith)
                requires
                    block_index >= 0,
                    self.short_data_codewords >= 0,
            ;
        }
        (block_index * self.short_data_codewords) + if block_index > self.short_block_count {
            block_index - self.short_block_count
        } else {
            0
        }
    }

    /// Returns the interleaved position of data codeword `source_index`.
    pub fn source_to_interleaved_index(&self, source_index: usize) -> (r: usize)
        requires
            self.wf(),
            source_index < self.total(),
        ensures
            r == interleave_target(self.total(), self.block_count as int, source_index as int),
            r < self.total(),
    {
        proof {
            lemma_split_facts(self.total(), self.block_count as int);
            lemma_target_then_source(self.total(), self.block_count as int, source_index as int);
            lemma_fundamental_div_mod(source_index as int, self.short_data_codewords as int);
        }
        let short_total = self.short_block_count * self.short_data_codewords;
        let block;
        let row;
        if source_index < short_total {
            block = source_index / self.short_data_codewords;
            row = source_index % self.short_data_codewords;
        } else {
            let long_index = source_index - short_total;
            block = self.short_block_count + (long_index / self.max_data_codewords);
            row = long_index % self.max_data_codewords;
        }
        if row < self.short_data_codewords {
            (row * self.block_count) + block
        } else {
            (self.short_data_codewords * self.block_count) + (block - self.short_block_count)
        }
    }

    /// Reorders the first `len` codewords of `data` into interleaved order,
    /// in place, by following the cycles of the permutation.
    pub fn interleave_data_in_place(&self, data: &mut Vec<u8>, len: usize)
        requires
            self.wf(),
            len == self.total(),
            len <= old(data)@.len(),
            len <= data_codewords_of(T::spec_version() as int, EccLevel::L),
        ensures
            interleaved_prefix(old(data)@, final(data)@, len as int, self.block_count as int),
    {
        let ghost total = len as int;
        let ghost blocks = self.block_count as int;
        let ghost initial = data@;
        let mut visited = new_interleave_visited_buf::<T>();
        let ghost mut seen: Set<int> = Set::empty();
        proof {
            crate::bits::lemma_zero_byte_bits();
            assert forall|i: int| 0 <= i < total implies lsb_bits(visited@)[i] == seen.contains(i) by {
                assert(visited@[i / 8] == 0);
            }
            reveal(cycles_done);
        }
        let mut start: usize = 0;
        while start < len
            invariant
                self.wf(),
                total == self.total(),
                blocks == self.block_count,
                len == total,
                visited@.len() * 8 >= total,
                start <= total,
                forall|i: int| 0 <= i < total ==> lsb_bits(visited@)[i] == #[trigger] seen.contains(i),
                forall|s: int| 0 <= s < start ==> #[trigger] seen.contains(s),
                cycles_done(initial, data@, seen, total, blocks),
                data@.len() == initial.len(),
                total <= initial.len(),
            decreases total - start,
        {
            if Self::visited_get(&visited, start) {
                start = start + 1;
                continue;
            }
            let mut current = start;
            let mut value = data[current];
            proof {
                lemma_cycle_begin(initial, data@, seen, total, blocks, start as int);
            }
            loop
                invariant_except_break
                    in_cycle(
                        initial,
                        data@,
                        seen,
                        total,
                        blocks,
                        start as int,
                        current as int,
                        value,
                    ),
                invariant
                    self.wf(),
                    total == self.total(),
                    blocks == self.block_count,
                    len == total,
                    visited@.len() * 8 >= total,
                    start < total,
                    forall|i: int|
                        0 <= i < total ==> lsb_bits(visited@)[i] == #[trigger] seen.contains(i),
                    forall|s: int| 0 <= s < start ==> #[trigger] seen.contains(s),
                    data@.len() == initial.len(),
                    total <= initial.len(),
                ensures
                    start < total,
                    seen.contains(start as int),
                    forall|i: int|
                        0 <= i < total ==> lsb_bits(visited@)[i] == #[trigger] seen.contains(i),
                    forall|s: int| 0 <= s < start ==> #[trigger] seen.contains(s),
                    cycles_done(initial, data@, seen, total, blocks),
                    data@.len() == initial.len(),
                    total <= initial.len(),
                decreases total - seen.len(),
            {
                proof {
                    lemma_cycle_facts(initial, data@, seen, total, blocks, start as int, current as int, value);
                }
                let ghost before = data@;
                let ghost before_seen = seen;
                let ghost previous = current as int;
                let ghost carried = value;
                Self::visited_set(&mut visited, current);
                proof {
                    seen = seen.insert(current as int);
                }
                let next = self.source_to_interleaved_index(current);
                let displaced = data[next];
                data.set(next, value);
                value = displaced;
                current = next;
                proof {
                    lemma_cycle_step(initial, before, before_seen, total, blocks, start as int, previous, carried);
                }
                if Self::visited_get(&visited, current) {
                    break;
                }
            }
            start = start + 1;
        }
        proof {
            lemma_cycles_complete(initial, data@, seen, total, blocks);
        }
    }

    /// Returns whether bit `index` of the visited set is set.
    fn visited_get(visited: &Vec<u8>, index: usize) -> (r: bool)
        requires
            index < visited@.len() * 8,
        ensures
            r == lsb_bits(visited@)[index as int],
    {
        proof {
            lemma_index_split(index);
        }
        let byte_index = index >> 3;
        let shift = (index & 0x07) as u8;
        let bit_mask = 1u8 << shift;
        let byte = visited[byte_index];
        let r = (byte & bit_mask) != 0;
        assert(r == ((byte >> shift) & 1u8 == 1u8)) by (bit_vector)
            requires
                shift < 8,
                bit_mask == 1u8 << shift,
                r == ((byte & bit_mask) != 0),
        ;
        r
    }

    /// Sets bit `index` of the visited set.
    fn visited_set(visited: &mut Vec<u8>, index: usize)
        requires
            index < old(visited)@.len() * 8,
        ensures
            final(visited)@.len() == old(visited)@.len(),
            lsb_bits(final(visited)@) == lsb_bits(old(visited)@).update(index as int, true),
    {
        proof {
            lemma_index_split(index);
        }
        let byte_index = index >> 3;
        let shift = (index & 0x07) as u8;
        let bit_mask = 1u8 << shift;
        let old_byte = visited[byte_index];
        let new_byte = old_byte | bit_mask;
        proof {
            lemma_byte_set_bit(old_byte, shift, true);
            assert(new_byte == byte_with_bit(old_byte, shift, true));
            lemma_lsb_set(visited@, index as int, true, new_byte);
        }
        visited.set(byte_index, new_byte);
    }
}

/// The state between cycles of the in-place interleaving: the visited set
/// `seen` is a union of whole cycles, each visited codeword already sits at
/// its interleaved position, and every other codeword is still in place.
#[verifier::opaque]
pub open spec fn cycles_done(initial: Seq<u8>, data: Seq<u8>, seen: Set<int>, total: int, blocks: int) -> bool {
    &&& valid_split(total, blocks)
    &&& data.len() == initial.len()
    &&& total <= initial.len()
    &&& forall|p: int| total <= p < initial.len() ==> #[trigger] data[p] == initial[p]
    &&& seen.finite()
    &&& forall|i: int| #[trigger] seen.contains(i) ==> 0 <= i < total
    &&& forall|s: int| #[trigger] seen.contains(s) ==> seen.contains(interleave_target(total, blocks, s))
    &&& forall|s: int| #[trigger] seen.contains(s) ==> seen.contains(interleave_source(total, blocks, s))
    &&& forall|s: int| #[trigger] seen.contains(s) ==> data[interleave_target(total, blocks, s)] == initial[s]
    &&& forall|p: int| 0 <= p < total && !#[trigger] seen.contains(p) ==> data[p] == initial[p]
}

/// The state inside the cycle that began at `start`: `current` is the next
/// codeword of the cycle to move and `value` holds its initial content.
#[verifier::opaque]
pub open spec fn in_cycle(
    initial: Seq<u8>,
    data: Seq<u8>,
    seen: Set<int>,
    total: int,
    blocks: int,
    start: int,
    current: int,
    value: u8,
) -> bool {
    &&& valid_split(total, blocks)
    &&& data.len() == initial.len()
    &&& total <= initial.len()
    &&& forall|p: int| total <= p < initial.len() ==> #[trigger] data[p] == initial[p]
    &&& 0 <= start < total
    &&& 0 <= current < total
    &&& !seen.contains(current)
    &&& current == start || seen.contains(interleave_source(total, blocks, current))
    &&& current != start ==> seen.contains(start)
    &&& value == initial[current]
    &&& seen.finite()
    &&& seen.len() < total
    &&& forall|i: int| #[trigger] seen.contains(i) ==> 0 <= i < total
    &&& forall|s: int|
        #[trigger] seen.contains(s) ==> seen.contains(interleave_target(total, blocks, s))
            || interleave_target(total, blocks, s) == current
    &&& forall|s: int|
        #[trigger] seen.contains(s) ==> seen.contains(interleave_source(total, blocks, s)) || s == start
    &&& forall|s: int| #[trigger] seen.contains(s) ==> data[interleave_target(total, blocks, s)] == initial[s]
    &&& forall|p: int| 0 <= p < total && !#[trigger] seen.contains(p) && p != current ==> data[p] == initial[p]
}

/// A cycle begins at an unvisited codeword.
proof fn lemma_cycle_begin(initial: Seq<u8>, data: Seq<u8>, seen: Set<int>, total: int, blocks: int, start: int)
    requires
        cycles_done(initial, data, seen, total, blocks),
        0 <= start < total,
        !seen.contains(start),
    ensures
        in_cycle(initial, data, seen, total, blocks, start, start, data[start]),
{
    reveal(cycles_done);
    reveal(in_cycle);
    lemma_int_range(0, total);
    lemma_len_subset(seen.insert(start), set_int_range(0, total));
}

/// The facts of the cycle state the loop needs for its bounds.
proof fn lemma_cycle_facts(
    initial: Seq<u8>,
    data: Seq<u8>,
    seen: Set<int>,
    total: int,
    blocks: int,
    start: int,
    current: int,
    value: u8,
)
    requires
        in_cycle(initial, data, seen, total, blocks, start, current, value),
    ensures
        0 <= current < total,
        data.len() == initial.len(),
        total <= data.len(),
        seen.finite(),
        !seen.contains(current),
        seen.len() < total,
{
    reveal(in_cycle);
}

/// Moving `current` to its interleaved position either closes the cycle at
/// `start` or continues it at that position.
proof fn lemma_cycle_step(
    initial: Seq<u8>,
    data: Seq<u8>,
    seen: Set<int>,
    total: int,
    blocks: int,
    start: int,
    current: int,
    value: u8,
)
    requires
        in_cycle(initial, data, seen, total, blocks, start, current, value),
    ensures
        ({
            let next = interleave_target(total, blocks, current);
            let seen2 = seen.insert(current);
            let data2 = data.update(next, value);
            &&& 0 <= next < total
            &&& seen2.len() == seen.len() + 1
            &&& seen2.contains(next) ==> next == start && seen2.contains(start) && cycles_done(
                initial,
                data2,
                seen2,
                total,
                blocks,
            )
            &&& !seen2.contains(next) ==> in_cycle(
                initial,
                data2,
                seen2,
                total,
                blocks,
                start,
                next,
                data[next],
            )
        }),
{
    reveal(cycles_done);
    reveal(in_cycle);
    let next = interleave_target(total, blocks, current);
    let seen2 = seen.insert(current);
    let data2 = data.update(next, value);
    lemma_target_then_source(total, blocks, current);
    assert(interleave_source(total, blocks, next) == current);
    if seen2.contains(next) {
        if next == current {
            assert(current == start);
        } else {
            assert(seen.contains(next));
            assert(next == start);
        }
        assert forall|s: int| #[trigger] seen2.contains(s) implies data2[interleave_target(
            total,
            blocks,
            s,
        )] == initial[s] by {
            if s != current {
                lemma_target_then_source(total, blocks, s);
            }
        }
        assert forall|s: int| #[trigger] seen2.contains(s) implies seen2.contains(
            interleave_source(total, blocks, s),
        ) by {
            if s == start {
                assert(interleave_source(total, blocks, start) == current);
            }
        }
    } else {
        lemma_int_range(0, total);
        lemma_len_subset(seen2.insert(next), set_int_range(0, total));
        assert forall|s: int| #[trigger] seen2.contains(s) implies data2[interleave_target(
            total,
            blocks,
            s,
        )] == initial[s] by {
            if s != current {
                lemma_target_then_source(total, blocks, s);
            }
        }
    }
}

/// When every codeword has been visited, the data is interleaved.
proof fn lemma_cycles_complete(initial: Seq<u8>, data: Seq<u8>, seen: Set<int>, total: int, blocks: int)
    requires
        cycles_done(initial, data, seen, total, blocks),
        forall|s: int| 0 <= s < total ==> #[trigger] seen.contains(s),
    ensures
        interleaved_prefix(initial, data, total, blocks),
{
    reveal(cycles_done);
    assert forall|p: int| 0 <= p < total implies #[trigger] data[p] == initial[interleave_source(
        total,
        blocks,
        p,
    )] by {
        lemma_source_then_target(total, blocks, p);
        assert(seen.contains(interleave_source(total, blocks, p)));
    }
}

/// The bounds of a block inside the data codewords.
proof fn lemma_block_bounds(total: int, blocks: int, block: int)
    requires
        valid_split(total, blocks),
        0 <= block < blocks,
    ensures
        0 <= block_start(total, blocks, block),
        block_start(total, blocks, block) + block_len(total, blocks, block) <= total,
{
    lemma_split_facts(total, blocks);
    let short = short_len(total, blocks);
    let shorts = short_count(total, blocks);
    let rem = total % blocks;
    if block < shorts {
        assert(block * short + short <= shorts * short) by (nonlinear_arith)
            requires
                0 <= block < shorts,
                short >= 1,
        ;
        assert(shorts * short <= total) by (nonlinear_arith)
            requires
                total == shorts * short + rem * (short + 1),
                rem >= 0,
                short >= 1,
        ;
    } else {
        assert(block * short + (block - shorts) + short + 1 <= total) by (nonlinear_arith)
            requires
                shorts <= block < blocks,
                total == short * blocks + rem,
                shorts == blocks - rem,
                short >= 1,
        ;
        assert(0 <= block * short) by (nonlinear_arith)
            requires
                0 <= block,
                short >= 1,
        ;
    }
}

} // verus!
