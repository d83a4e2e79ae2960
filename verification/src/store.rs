//! Integer layout rules of the dense bucket stores: the encoding-mode
//! sub-flags of store frames, and the growth rule for the backing array.
//! The arrays of sample weights themselves live outside the verified core.

use vstd::prelude::*;
use crate::error::Error;
use crate::frame::{Flag, FlagType, spec_flag_type_marker};
use crate::io::{Input, Output};
use crate::varbit::{decode_var_double_bits, encode_var_double_bits, lemma_varbit_raw_bijection,
    spec_varbit_bytes, spec_varbit_dec, spec_varbit_from_raw, spec_varbit_to_raw,
    var_double_encoded_length_bits};
use crate::varenc::{decode_signed_var_long, decode_unsigned_var_long, encode_signed_var_long,
    encode_unsigned_var_long, i64_to_i32_exact, signed_var_long_encoded_length,
    spec_svarlong_bytes, spec_svarlong_dec, spec_uvarlong_bytes, spec_uvarlong_dec,
    unsigned_var_long_encoded_length};

verus! {

/// The sub-flag of a store frame: how its bins are laid out.
#[derive(Clone, Copy, PartialEq, Eq, Structural, Debug)]
pub enum BinEncodingMode {
    IndexDeltasAndCounts,
    IndexDeltas,
    ContiguousCounts,
}

/// The sub-flag value of a bin encoding mode.
pub open spec fn spec_bin_encoding_sub_flag(m: BinEncodingMode) -> u8 {
    match m {
        BinEncodingMode::IndexDeltasAndCounts => 1,
        BinEncodingMode::IndexDeltas => 2,
        BinEncodingMode::ContiguousCounts => 3,
    }
}

/// The bin encoding mode named by a sub-flag value, if any.
pub open spec fn spec_mode_of_sub_flag(sub: u8) -> Option<BinEncodingMode> {
    if sub == 1 {
        Some(BinEncodingMode::IndexDeltasAndCounts)
    } else if sub == 2 {
        Some(BinEncodingMode::IndexDeltas)
    } else if sub == 3 {
        Some(BinEncodingMode::ContiguousCounts)
    } else {
        None
    }
}

impl BinEncodingMode {
    /// The bin encoding mode named by a flag byte's sub-flag.
    pub fn of_flag(marker: u8) -> (r: Result<BinEncodingMode, Error>)
        ensures
            match r {
                Ok(m) => spec_mode_of_sub_flag(marker >> 2u8) == Some(m)
                    && spec_bin_encoding_sub_flag(m) == marker >> 2u8,
                Err(e) => spec_mode_of_sub_flag(marker >> 2u8) is None && e is InvalidArgument,
            },
    {
        let index = marker >> 2u8;
        match index {
            1 => Ok(BinEncodingMode::IndexDeltasAndCounts),
            2 => Ok(BinEncodingMode::IndexDeltas),
            3 => Ok(BinEncodingMode::ContiguousCounts),
            _ => Err(Error::InvalidArgument("Unknown BinEncodingMode.")),
        }
    }

    /// The flag byte opening a store frame written in this mode.
    pub fn to_flag(self, store_flag_type: FlagType) -> (r: Flag)
        ensures
            r.spec_marker() == spec_flag_type_marker(store_flag_type)
                | (spec_bin_encoding_sub_flag(self) << 2u8),
    {
        let sub_flag = match self {
            BinEncodingMode::IndexDeltasAndCounts => 1,
            BinEncodingMode::IndexDeltas => 2,
            BinEncodingMode::ContiguousCounts => 3,
        };
        Flag::with_type(store_flag_type, sub_flag)
    }
}

/// The IEEE-754 bit pattern of 2.0: a unit weight plus one, as the weight
/// tokens carry it.
pub const DOUBLE_TWO_BITS: u64 = 0x4000000000000000;

/// Whether `idx` fits a 32-bit bucket index.
pub open spec fn spec_in_i32(idx: i64) -> bool {
    i32::MIN <= idx <= i32::MAX
}

/// The bins of a vector of decoded pairs, with the indices widened.
pub open spec fn spec_widen_bins(bins: Seq<(i32, u64)>) -> Seq<(i64, u64)> {
    bins.map(|j: int, b: (i32, u64)| ((b.0 as i64), b.1))
}

/// Bins of a frame body in index-deltas-and-counts mode: `n` pairs of a
/// signed index delta and a weight token, the indices accumulating from
/// `prev` with wrapping 64-bit addition.  Yields the `(index, raw weight
/// pattern)` pairs and the position just past them, or `None` when the
/// input ends first.
pub open spec fn spec_bins_deltas_counts(s: Seq<u8>, i: int, n: int, prev: i64)
    -> Option<(Seq<(i64, u64)>, int)>
    decreases n,
{
    if n <= 0 {
        Some((Seq::empty(), i))
    } else {
        match spec_svarlong_dec(s, i) {
            None => None,
            Some(d) => match spec_varbit_dec(s, d.1) {
                None => None,
                Some(c) => {
                    let idx = vstd::wrapping::i64_specs::wrapping_add(prev, d.0);
                    match spec_bins_deltas_counts(s, c.1, n - 1, idx) {
                        None => None,
                        Some(rest) => Some((
                            seq![(idx, spec_varbit_to_raw(c.0))] + rest.0,
                            rest.1,
                        )),
                    }
                },
            },
        }
    }
}

/// Bins of a frame body in index-deltas mode: `n` signed index deltas, each
/// bin carrying a unit weight.
pub open spec fn spec_bins_deltas(s: Seq<u8>, i: int, n: int, prev: i64)
    -> Option<(Seq<(i64, u64)>, int)>
    decreases n,
{
    if n <= 0 {
        Some((Seq::empty(), i))
    } else {
        match spec_svarlong_dec(s, i) {
            None => None,
            Some(d) => {
                let idx = vstd::wrapping::i64_specs::wrapping_add(prev, d.0);
                match spec_bins_deltas(s, d.1, n - 1, idx) {
                    None => None,
                    Some(rest) => Some((seq![(idx, DOUBLE_TWO_BITS)] + rest.0, rest.1)),
                }
            },
        }
    }
}

/// Bins of a frame body in contiguous-counts mode: `n` weight tokens at
/// indices stepped by `delta` from `idx`.
pub open spec fn spec_bins_contiguous(s: Seq<u8>, i: int, n: int, idx: i64, delta: i64)
    -> Option<(Seq<(i64, u64)>, int)>
    decreases n,
{
    if n <= 0 {
        Some((Seq::empty(), i))
    } else {
        match spec_varbit_dec(s, i) {
            None => None,
            Some(c) => {
                let next = vstd::wrapping::i64_specs::wrapping_add(idx, delta);
                match spec_bins_contiguous(s, c.1, n - 1, next, delta) {
                    None => None,
                    Some(rest) => Some((
                        seq![(idx, spec_varbit_to_raw(c.0))] + rest.0,
                        rest.1,
                    )),
                }
            },
        }
    }
}

/// The bins of a whole store frame body in `mode`: their number first, and
/// in contiguous mode the starting index and the index step.
pub open spec fn spec_store_bins(s: Seq<u8>, i: int, mode: BinEncodingMode)
    -> Option<(Seq<(i64, u64)>, int)>
{
    match mode {
        BinEncodingMode::IndexDeltasAndCounts => match spec_uvarlong_dec(s, i) {
            None => None,
            Some(n) => spec_bins_deltas_counts(s, n.1, n.0 as i64 as int, 0),
        },
        BinEncodingMode::IndexDeltas => match spec_uvarlong_dec(s, i) {
            None => None,
            Some(n) => spec_bins_deltas(s, n.1, n.0 as i64 as int, 0),
        },
        BinEncodingMode::ContiguousCounts => match spec_uvarlong_dec(s, i) {
            None => None,
            Some(n) => match spec_svarlong_dec(s, n.1) {
                None => None,
                Some(start) => match spec_svarlong_dec(s, start.1) {
                    None => None,
                    Some(step) => spec_bins_contiguous(
                        s, step.1, n.0 as i64 as int, start.0, step.0),
                },
            },
        },
    }
}

/// Reads the body of a store frame and yields its bins as `(bucket index,
/// raw weight pattern)` pairs, where the pattern is that of the weight plus
/// one.  Fails with an input error when the frame is truncated, and rejects
/// a bin index outside the 32-bit range.
#[verifier::loop_isolation(false)]
pub fn decode_store_bins(input: &mut Input, mode: BinEncodingMode)
    -> (r: Result<Vec<(i32, u64)>, Error>)
    requires
        old(input).wf(),
    ensures
        final(input).wf(),
        final(input).bytes() == old(input).bytes(),
        match r {
            Ok(bins) => {
                &&& spec_store_bins(old(input).bytes(), old(input).pos(), mode) matches Some(p)
                    && spec_widen_bins(bins@) == p.0 && final(input).pos() == p.1
            },
            Err(e) => {
                &&& e is IoError || e is InvalidArgument
                &&& e is IoError
                    ==> spec_store_bins(old(input).bytes(), old(input).pos(), mode) is None
                &&& e is InvalidArgument
                    ==> (spec_store_bins(old(input).bytes(), old(input).pos(), mode)
                        matches Some(p)
                        ==> exists|j: int| 0 <= j < p.0.len() && !spec_in_i32(#[trigger] p.0[j].0))
            },
        },
{
    let ghost s0 = old(input).bytes();
    let ghost i0 = old(input).pos();
    match mode {
        BinEncodingMode::IndexDeltasAndCounts => {
            let num_bins = decode_unsigned_var_long(input)?;
            let ghost n0: int = num_bins as int;
            let mut bins: Vec<(i32, u64)> = Vec::new();
            let mut index: i64 = 0;
            let mut i: i64 = 0;
            proof {
                assert((num_bins as u64) as i64 == num_bins) by (bit_vector);
                match spec_bins_deltas_counts(s0, input.pos(), n0, 0) {
                    Some(rest) => {
                        assert(spec_widen_bins(bins@) + rest.0 =~= rest.0);
                    },
                    None => {},
                }
            }
            while i < num_bins
                invariant
                    input.wf(),
                    input.bytes() == s0,
                    input.pos() <= s0.len(),
                    0 <= i,
                    i <= num_bins || i == 0,
                    bins@.len() == i,
                    spec_store_bins(s0, i0, mode)
                        == (match spec_bins_deltas_counts(s0, input.pos(), n0 - i, index) {
                            None => None::<(Seq<(i64, u64)>, int)>,
                            Some(rest) => Some((spec_widen_bins(bins@) + rest.0, rest.1)),
                        }),
                decreases num_bins - i,
            {
                let ghost pre = input.pos();
                let ghost prev_index = index;
                let ghost done = bins@;
                let index_delta = decode_signed_var_long(input)?;
                let raw = decode_var_double_bits(input)?;
                index = index.wrapping_add(index_delta);
                proof {
                    lemma_varbit_raw_bijection(raw);
                    assert(spec_bins_deltas_counts(s0, pre, n0 - i, prev_index) == (
                        match spec_bins_deltas_counts(s0, input.pos(), n0 - i - 1, index) {
                            None => None::<(Seq<(i64, u64)>, int)>,
                            Some(rest) => Some((seq![(index, raw)] + rest.0, rest.1)),
                        }));
                }
                let idx32 = match i64_to_i32_exact(index) {
                    Ok(v) => v,
                    Err(e) => {
                        proof {
                            match spec_bins_deltas_counts(s0, pre, n0 - i, prev_index) {
                                Some(rest_all) => {
                                    assert(rest_all.0[0] == (index, raw));
                                    match spec_store_bins(s0, i0, mode) {
                                        Some(p) => {
                                            assert(p.0 == spec_widen_bins(done) + rest_all.0);
                                            assert(p.0[done.len() as int] == rest_all.0[0]);
                                            assert(!spec_in_i32(p.0[done.len() as int].0));
                                        },
                                        None => {},
                                    }
                                },
                                None => {},
                            }
                        }
                        return Err(e);
                    },
                };
                bins.push((idx32, raw));
                i = i + 1;
                proof {
                    assert(spec_widen_bins(bins@)
                        =~= spec_widen_bins(done).push((index, raw)));
                    match spec_bins_deltas_counts(s0, input.pos(), n0 - i, index) {
                        Some(rest) => {
                            assert(spec_widen_bins(done) + (seq![(index, raw)] + rest.0)
                                =~= spec_widen_bins(bins@) + rest.0);
                        },
                        None => {},
                    }
                }
            }
            proof {
                match spec_bins_deltas_counts(s0, input.pos(), n0 - i, index) {
                    Some(rest) => {
                        assert(spec_widen_bins(bins@) + rest.0 =~= spec_widen_bins(bins@));
                    },
                    None => {},
                }
            }
            Ok(bins)
        },
        BinEncodingMode::IndexDeltas => {
            let num_bins = decode_unsigned_var_long(input)?;
            let ghost n0: int = num_bins as int;
            let mut bins: Vec<(i32, u64)> = Vec::new();
            let mut index: i64 = 0;
            let mut i: i64 = 0;
            proof {
                assert((num_bins as u64) as i64 == num_bins) by (bit_vector);
                match spec_bins_deltas(s0, input.pos(), n0, 0) {
                    Some(rest) => {
                        assert(spec_widen_bins(bins@) + rest.0 =~= rest.0);
                    },
                    None => {},
                }
            }
            while i < num_bins
                invariant
                    input.wf(),
                    input.bytes() == s0,
                    input.pos() <= s0.len(),
                    0 <= i,
                    i <= num_bins || i == 0,
                    bins@.len() == i,
                    spec_store_bins(s0, i0, mode)
                        == (match spec_bins_deltas(s0, input.pos(), n0 - i, index) {
                            None => None::<(Seq<(i64, u64)>, int)>,
                            Some(rest) => Some((spec_widen_bins(bins@) + rest.0, rest.1)),
                        }),
                decreases num_bins - i,
            {
                let ghost pre = input.pos();
                let ghost prev_index = index;
                let ghost done = bins@;
                let index_delta = decode_signed_var_long(input)?;
                index = index.wrapping_add(index_delta);
                proof {
                    assert(spec_bins_deltas(s0, pre, n0 - i, prev_index) == (
                        match spec_bins_deltas(s0, input.pos(), n0 - i - 1, index) {
                            None => None::<(Seq<(i64, u64)>, int)>,
                            Some(rest) => Some((seq![(index, DOUBLE_TWO_BITS)] + rest.0, rest.1)),
                        }));
                }
                let idx32 = match i64_to_i32_exact(index) {
                    Ok(v) => v,
                    Err(e) => {
                        proof {
                            match spec_bins_deltas(s0, pre, n0 - i, prev_index) {
                                Some(rest_all) => {
                                    assert(rest_all.0[0] == (index, DOUBLE_TWO_BITS));
                                    match spec_store_bins(s0, i0, mode) {
                                        Some(p) => {
                                            assert(p.0 == spec_widen_bins(done) + rest_all.0);
                                            assert(p.0[done.len() as int] == rest_all.0[0]);
                                            assert(!spec_in_i32(p.0[done.len() as int].0));
                                        },
                                        None => {},
                                    }
                                },
                                None => {},
                            }
                        }
                        return Err(e);
                    },
                };
                bins.push((idx32, DOUBLE_TWO_BITS));
                i = i + 1;
                proof {
                    assert(spec_widen_bins(bins@)
                        =~= spec_widen_bins(done).push((index, DOUBLE_TWO_BITS)));
                    match spec_bins_deltas(s0, input.pos(), n0 - i, index) {
                        Some(rest) => {
                            assert(spec_widen_bins(done) + (seq![(index, DOUBLE_TWO_BITS)] + rest.0)
                                =~= spec_widen_bins(bins@) + rest.0);
                        },
                        None => {},
                    }
                }
            }
            proof {
                match spec_bins_deltas(s0, input.pos(), n0 - i, index) {
                    Some(rest) => {
                        assert(spec_widen_bins(bins@) + rest.0 =~= spec_widen_bins(bins@));
                    },
                    None => {},
                }
            }
            Ok(bins)
        },
        BinEncodingMode::ContiguousCounts => {
            let num_bins = decode_unsigned_var_long(input)?;
            let start = decode_signed_var_long(input)?;
            let index_delta = decode_signed_var_long(input)?;
            let ghost n0: int = num_bins as int;
            let mut bins: Vec<(i32, u64)> = Vec::new();
            let mut index: i64 = start;
            let mut i: i64 = 0;
            proof {
                assert((num_bins as u64) as i64 == num_bins) by (bit_vector);
                match spec_bins_contiguous(s0, input.pos(), n0, start, index_delta) {
                    Some(rest) => {
                        assert(spec_widen_bins(bins@) + rest.0 =~= rest.0);
                    },
                    None => {},
                }
            }
            while i < num_bins
                invariant
                    input.wf(),
                    input.bytes() == s0,
                    input.pos() <= s0.len(),
                    0 <= i,
                    i <= num_bins || i == 0,
                    bins@.len() == i,
                    spec_store_bins(s0, i0, mode)
                        == (match spec_bins_contiguous(s0, input.pos(), n0 - i, index, index_delta) {
                            None => None::<(Seq<(i64, u64)>, int)>,
                            Some(rest) => Some((spec_widen_bins(bins@) + rest.0, rest.1)),
                        }),
                decreases num_bins - i,
            {
                let ghost pre = input.pos();
                let ghost prev_index = index;
                let ghost done = bins@;
                let raw = decode_var_double_bits(input)?;
                proof {
                    lemma_varbit_raw_bijection(raw);
                    assert(spec_bins_contiguous(s0, pre, n0 - i, prev_index, index_delta) == (
                        match spec_bins_contiguous(s0, input.pos(), n0 - i - 1,
                            vstd::wrapping::i64_specs::wrapping_add(prev_index, index_delta),
                            index_delta) {
                            None => None::<(Seq<(i64, u64)>, int)>,
                            Some(rest) => Some((seq![(prev_index, raw)] + rest.0, rest.1)),
                        }));
                }
                let idx32 = match i64_to_i32_exact(index) {
                    Ok(v) => v,
                    Err(e) => {
                        proof {
                            match spec_bins_contiguous(s0, pre, n0 - i, prev_index, index_delta) {
                                Some(rest_all) => {
                                    assert(rest_all.0[0] == (prev_index, raw));
                                    match spec_store_bins(s0, i0, mode) {
                                        Some(p) => {
                                            assert(p.0 == spec_widen_bins(done) + rest_all.0);
                                            assert(p.0[done.len() as int] == rest_all.0[0]);
                                            assert(!spec_in_i32(p.0[done.len() as int].0));
                                        },
                                        None => {},
                                    }
                                },
                                None => {},
                            }
                        }
                        return Err(e);
                    },
                };
                bins.push((idx32, raw));
                index = index.wrapping_add(index_delta);
                i = i + 1;
                proof {
                    assert(spec_widen_bins(bins@)
                        =~= spec_widen_bins(done).push((prev_index, raw)));
                    match spec_bins_contiguous(s0, input.pos(), n0 - i, index, index_delta) {
                        Some(rest) => {
                            assert(spec_widen_bins(done) + (seq![(prev_index, raw)] + rest.0)
                                =~= spec_widen_bins(bins@) + rest.0);
                        },
                        None => {},
                    }
                }
            }
            proof {
                match spec_bins_contiguous(s0, input.pos(), n0 - i, index, index_delta) {
                    Some(rest) => {
                        assert(spec_widen_bins(bins@) + rest.0 =~= spec_widen_bins(bins@));
                    },
                    None => {},
                }
            }
            Ok(bins)
        },
    }
}

/// The weight tokens of the bins from position `k` on, dense: one token per
/// bin.  Each bin carries the raw pattern of its weight plus one.
pub open spec fn spec_dense_tokens(c: Seq<(u64, bool)>, k: int) -> Seq<u8>
    decreases c.len() - k,
{
    if k < 0 || k >= c.len() {
        Seq::empty()
    } else {
        spec_varbit_bytes(spec_varbit_from_raw(c[k].0)) + spec_dense_tokens(c, k + 1)
    }
}

/// How many bins from position `k` on count as non-empty.
pub open spec fn spec_sparse_count(c: Seq<(u64, bool)>, k: int) -> int
    decreases c.len() - k,
{
    if k < 0 || k >= c.len() {
        0
    } else {
        (if c[k].1 { 1int } else { 0int }) + spec_sparse_count(c, k + 1)
    }
}

/// The sparse tokens of the bins from position `k` on: for each non-empty
/// bin, the index delta from the previous emitted index and the weight
/// token.  Position `k` holds bucket `base + k`; `prev` is the previous
/// emitted index, zero before any.
pub open spec fn spec_sparse_tokens(c: Seq<(u64, bool)>, base: int, k: int, prev: int) -> Seq<u8>
    decreases c.len() - k,
{
    if k < 0 || k >= c.len() {
        Seq::empty()
    } else if !c[k].1 {
        spec_sparse_tokens(c, base, k + 1, prev)
    } else {
        spec_svarlong_bytes((base + k - prev) as i64)
            + spec_varbit_bytes(spec_varbit_from_raw(c[k].0))
            + spec_sparse_tokens(c, base, k + 1, base + k)
    }
}

/// A store frame in contiguous-counts layout: its flag byte, the number of
/// bins, the first index, the index step of one, and one weight token per
/// bin.
pub open spec fn spec_dense_store_bytes(t: FlagType, min_index: int, c: Seq<(u64, bool)>)
    -> Seq<u8>
{
    seq![spec_flag_type_marker(t) | (3u8 << 2u8)]
        + spec_uvarlong_bytes(c.len() as u64)
        + spec_svarlong_bytes(min_index as i64)
        + spec_svarlong_bytes(1)
        + spec_dense_tokens(c, 0)
}

/// A store frame in index-deltas-and-counts layout: its flag byte, the
/// number of non-empty bins, and their sparse tokens.
pub open spec fn spec_sparse_store_bytes(t: FlagType, min_index: int, c: Seq<(u64, bool)>)
    -> Seq<u8>
{
    seq![spec_flag_type_marker(t) | (1u8 << 2u8)]
        + spec_uvarlong_bytes(spec_sparse_count(c, 0) as u64)
        + spec_sparse_tokens(c, min_index, 0, 0)
}

/// Which of the two layouts a store frame takes: the contiguous one
/// whenever its frame is no longer than the sparse frame, so the shorter of
/// the two encodings is always emitted and ties go contiguous.
pub open spec fn spec_dense_is_chosen(t: FlagType, min_index: int, c: Seq<(u64, bool)>) -> bool {
    spec_dense_store_bytes(t, min_index, c).len() <= spec_sparse_store_bytes(t, min_index, c).len()
}

/// The bytes of the store frame for the occupied window of a store: bin `k`
/// of `counts_raw` is bucket `min_index + k`, holding the raw pattern of its
/// weight plus one and whether the weight is non-zero.
pub open spec fn spec_store_frame_bytes(t: FlagType, min_index: int, c: Seq<(u64, bool)>)
    -> Seq<u8>
{
    if spec_dense_is_chosen(t, min_index, c) {
        spec_dense_store_bytes(t, min_index, c)
    } else {
        spec_sparse_store_bytes(t, min_index, c)
    }
}

/// Writes the frame of a store whose occupied window starts at bucket
/// `min_index`: bin `k` of `counts_raw` is bucket `min_index + k`, given as
/// the raw pattern of its weight plus one, and whether the weight is
/// non-zero (a weight can be non-zero yet so small that the pattern alone
/// cannot show it).  The shorter of the two frames is emitted; a tie goes to
/// the contiguous layout.
#[verifier::loop_isolation(false)]
pub fn encode_store(
    output: &mut Output,
    store_flag_type: FlagType,
    min_index: i32,
    counts_raw: &Vec<(u64, bool)>,
) -> (r: Result<(), Error>)
    requires
        1 <= counts_raw@.len(),
        min_index + counts_raw@.len() <= i32::MAX as int + 1,
    ensures
        r is Ok,
        final(output).bytes() == old(output).bytes()
            + spec_store_frame_bytes(store_flag_type, min_index as int, counts_raw@),
{
    let ghost c = counts_raw@;
    let ghost base = min_index as int;
    let len = counts_raw.len();
    let num_bins: i64 = len as i64;
    proof {
        assert((num_bins as u64) == (c.len() as u64));
    }

    let mut dense_encoding_size: i64 = 0;
    dense_encoding_size = dense_encoding_size + unsigned_var_long_encoded_length(num_bins);
    dense_encoding_size = dense_encoding_size + signed_var_long_encoded_length(min_index as i64);
    dense_encoding_size = dense_encoding_size + signed_var_long_encoded_length(1);

    let mut sparse_encoding_size: i64 = 0;
    let mut num_non_empty_bins: i64 = 0;
    let mut previous_index: i64 = 0;
    let mut i: usize = 0;
    proof {
        assert(spec_dense_store_bytes(store_flag_type, base, c).len() == 1
            + spec_uvarlong_bytes(c.len() as u64).len()
            + spec_svarlong_bytes(min_index as i64).len()
            + spec_svarlong_bytes(1).len()
            + spec_dense_tokens(c, 0).len());
    }
    while i < len
        invariant
            len == c.len(),
            0 <= i <= len,
            dense_encoding_size + spec_dense_tokens(c, i as int).len()
                == spec_dense_store_bytes(store_flag_type, base, c).len() - 1,
            sparse_encoding_size
                + spec_sparse_tokens(c, base, i as int, previous_index as int).len()
                == spec_sparse_tokens(c, base, 0, 0).len(),
            num_non_empty_bins + spec_sparse_count(c, i as int) == spec_sparse_count(c, 0),
            0 <= num_non_empty_bins <= i,
            dense_encoding_size <= 27 + 9 * i,
            sparse_encoding_size <= 18 * i,
            i32::MIN <= previous_index <= i32::MAX,
        decreases len - i,
    {
        let bin = counts_raw[i];
        let token_len = var_double_encoded_length_bits(bin.0);
        dense_encoding_size = dense_encoding_size + token_len;
        if bin.1 {
            num_non_empty_bins = num_non_empty_bins + 1;
            let index: i64 = min_index as i64 + i as i64;
            sparse_encoding_size = sparse_encoding_size
                + signed_var_long_encoded_length(index - previous_index);
            sparse_encoding_size = sparse_encoding_size + token_len;
            previous_index = index;
        }
        i = i + 1;
    }

    let sparse_header_size = unsigned_var_long_encoded_length(num_non_empty_bins);
    proof {
        assert((num_non_empty_bins as u64) == (spec_sparse_count(c, 0) as u64));
        assert(spec_sparse_store_bytes(store_flag_type, base, c).len() == 1
            + spec_uvarlong_bytes(spec_sparse_count(c, 0) as u64).len()
            + spec_sparse_tokens(c, base, 0, 0).len());
    }
    if dense_encoding_size <= sparse_encoding_size + sparse_header_size {
        proof {
            assert(spec_dense_is_chosen(store_flag_type, base, c));
        }
        BinEncodingMode::ContiguousCounts.to_flag(store_flag_type).encode(output)?;
        encode_unsigned_var_long(output, num_bins)?;
        encode_signed_var_long(output, min_index as i64)?;
        encode_signed_var_long(output, 1)?;
        proof {
            assert(output.bytes() + spec_dense_tokens(c, 0)
                =~= old(output).bytes() + spec_dense_store_bytes(store_flag_type, base, c));
        }
        let mut i: usize = 0;
        while i < len
            invariant
                len == c.len(),
                0 <= i <= len,
                output.bytes() + spec_dense_tokens(c, i as int)
                    == old(output).bytes() + spec_dense_store_bytes(store_flag_type, base, c),
            decreases len - i,
        {
            let ghost pre = output.bytes();
            encode_var_double_bits(output, counts_raw[i].0)?;
            proof {
                assert(spec_dense_tokens(c, i as int)
                    == spec_varbit_bytes(spec_varbit_from_raw(c[i as int].0))
                        + spec_dense_tokens(c, i + 1));
                assert(output.bytes() + spec_dense_tokens(c, i + 1)
                    =~= pre + spec_dense_tokens(c, i as int));
            }
            i = i + 1;
        }
        proof {
            assert(output.bytes() + spec_dense_tokens(c, i as int) =~= output.bytes());
        }
        Ok(())
    } else {
        proof {
            assert(!spec_dense_is_chosen(store_flag_type, base, c));
        }
        BinEncodingMode::IndexDeltasAndCounts.to_flag(store_flag_type).encode(output)?;
        encode_unsigned_var_long(output, num_non_empty_bins)?;
        proof {
            assert(output.bytes() + spec_sparse_tokens(c, base, 0, 0)
                =~= old(output).bytes() + spec_sparse_store_bytes(store_flag_type, base, c));
        }
        let mut previous_index: i64 = 0;
        let mut i: usize = 0;
        while i < len
            invariant
                len == c.len(),
                0 <= i <= len,
                i32::MIN <= previous_index <= i32::MAX,
                output.bytes() + spec_sparse_tokens(c, base, i as int, previous_index as int)
                    == old(output).bytes() + spec_sparse_store_bytes(store_flag_type, base, c),
            decreases len - i,
        {
            let bin = counts_raw[i];
            if bin.1 {
                let ghost pre = output.bytes();
                let ghost prev = previous_index as int;
                let index: i64 = min_index as i64 + i as i64;
                encode_signed_var_long(output, index - previous_index)?;
                encode_var_double_bits(output, bin.0)?;
                proof {
                    assert(spec_sparse_tokens(c, base, i as int, prev)
                        == spec_svarlong_bytes((base + i - prev) as i64)
                            + spec_varbit_bytes(spec_varbit_from_raw(c[i as int].0))
                            + spec_sparse_tokens(c, base, i + 1, base + i));
                    assert(output.bytes() + spec_sparse_tokens(c, base, i + 1, base + i)
                        =~= pre + spec_sparse_tokens(c, base, i as int, prev));
                }
                previous_index = index;
            }
            i = i + 1;
        }
        proof {
            assert(output.bytes() + spec_sparse_tokens(c, base, i as int, previous_index as int)
                =~= output.bytes());
        }
        Ok(())
    }
}

/// The bins that decoding a dense-layout window recovers: every bin, at
/// consecutive indices from `base + k` on.
pub open spec fn spec_dense_expected(c: Seq<(u64, bool)>, base: int, k: int) -> Seq<(i64, u64)>
    decreases c.len() - k,
{
    if k < 0 || k >= c.len() {
        Seq::empty()
    } else {
        seq![((base + k) as i64, c[k].0)] + spec_dense_expected(c, base, k + 1)
    }
}

/// The bins that decoding a sparse-layout window recovers: the non-empty
/// bins from `base + k` on, each at its own index.
pub open spec fn spec_sparse_expected(c: Seq<(u64, bool)>, base: int, k: int) -> Seq<(i64, u64)>
    decreases c.len() - k,
{
    if k < 0 || k >= c.len() {
        Seq::empty()
    } else if !c[k].1 {
        spec_sparse_expected(c, base, k + 1)
    } else {
        seq![((base + k) as i64, c[k].0)] + spec_sparse_expected(c, base, k + 1)
    }
}

proof fn lemma_dense_bins_round_trip(s: Seq<u8>, j: int, c: Seq<(u64, bool)>, base: int, k: int)
    requires
        0 <= j,
        0 <= k <= c.len(),
        i32::MIN <= base,
        base + c.len() <= i32::MAX + 1,
        j + spec_dense_tokens(c, k).len() <= s.len(),
        s.subrange(j, j + spec_dense_tokens(c, k).len()) == spec_dense_tokens(c, k),
    ensures
        spec_bins_contiguous(s, j, c.len() - k, (base + k) as i64, 1)
            == Some((spec_dense_expected(c, base, k), j + spec_dense_tokens(c, k).len())),
    decreases c.len() - k,
{
    if k == c.len() {
        assert(spec_bins_contiguous(s, j, 0, (base + k) as i64, 1) == Some((
            Seq::<(i64, u64)>::empty(), j)));
    } else {
        let tok = spec_varbit_bytes(spec_varbit_from_raw(c[k].0));
        let rest = spec_dense_tokens(c, k + 1);
        assert(spec_dense_tokens(c, k) == tok + rest);
        assert(s.subrange(j, j + tok.len() as int) =~= tok) by {
            assert forall|x: int| 0 <= x < tok.len()
                implies s.subrange(j, j + tok.len() as int)[x] == tok[x] by {
                assert(s.subrange(j, j + spec_dense_tokens(c, k).len())[x] == tok[x]);
            }
        }
        crate::varbit::lemma_var_double_bits_round_trip(s, j, c[k].0);
        let j1 = j + tok.len() as int;
        assert(s.subrange(j1, j1 + rest.len() as int) =~= rest) by {
            assert forall|x: int| 0 <= x < rest.len()
                implies s.subrange(j1, j1 + rest.len() as int)[x] == rest[x] by {
                assert(s.subrange(j, j + spec_dense_tokens(c, k).len())[tok.len() + x]
                    == rest[x]);
            }
        }
        lemma_dense_bins_round_trip(s, j1, c, base, k + 1);
        assert(vstd::wrapping::i64_specs::wrapping_add((base + k) as i64, 1)
            == (base + k + 1) as i64);
        assert(spec_dense_expected(c, base, k)
            == seq![((base + k) as i64, c[k].0)] + spec_dense_expected(c, base, k + 1));
    }
}

proof fn lemma_sparse_bins_round_trip(
    s: Seq<u8>, j: int, c: Seq<(u64, bool)>, base: int, k: int, prev: int,
)
    requires
        0 <= j,
        0 <= k <= c.len(),
        i32::MIN <= base,
        base + c.len() <= i32::MAX + 1,
        i32::MIN <= prev <= i32::MAX,
        j + spec_sparse_tokens(c, base, k, prev).len() <= s.len(),
        s.subrange(j, j + spec_sparse_tokens(c, base, k, prev).len())
            == spec_sparse_tokens(c, base, k, prev),
    ensures
        spec_bins_deltas_counts(s, j, spec_sparse_count(c, k), prev as i64)
            == Some((spec_sparse_expected(c, base, k),
                j + spec_sparse_tokens(c, base, k, prev).len())),
    decreases c.len() - k,
{
    if k == c.len() {
        assert(spec_sparse_count(c, k) == 0);
    } else if !c[k].1 {
        lemma_sparse_bins_round_trip(s, j, c, base, k + 1, prev);
    } else {
        let delta = (base + k - prev) as i64;
        let dtok = spec_svarlong_bytes(delta);
        let ctok = spec_varbit_bytes(spec_varbit_from_raw(c[k].0));
        let rest = spec_sparse_tokens(c, base, k + 1, base + k);
        let all = spec_sparse_tokens(c, base, k, prev);
        assert(all == dtok + ctok + rest);
        assert(s.subrange(j, j + dtok.len() as int) =~= dtok) by {
            assert forall|x: int| 0 <= x < dtok.len()
                implies s.subrange(j, j + dtok.len() as int)[x] == dtok[x] by {
                assert(s.subrange(j, j + all.len())[x] == dtok[x]);
            }
        }
        crate::varenc::lemma_signed_var_long_round_trip(s, j, delta);
        let j1 = j + dtok.len() as int;
        assert(s.subrange(j1, j1 + ctok.len() as int) =~= ctok) by {
            assert forall|x: int| 0 <= x < ctok.len()
                implies s.subrange(j1, j1 + ctok.len() as int)[x] == ctok[x] by {
                assert(s.subrange(j, j + all.len())[dtok.len() + x] == ctok[x]);
            }
        }
        crate::varbit::lemma_var_double_bits_round_trip(s, j1, c[k].0);
        let j2 = j1 + ctok.len() as int;
        assert(s.subrange(j2, j2 + rest.len() as int) =~= rest) by {
            assert forall|x: int| 0 <= x < rest.len()
                implies s.subrange(j2, j2 + rest.len() as int)[x] == rest[x] by {
                assert(s.subrange(j, j + all.len())[dtok.len() + ctok.len() + x] == rest[x]);
            }
        }
        lemma_sparse_bins_round_trip(s, j2, c, base, k + 1, base + k);
        lemma_sparse_count_bounds(c, k + 1);
        assert(vstd::wrapping::i64_specs::wrapping_add(prev as i64, delta)
            == (base + k) as i64);
        assert(spec_sparse_count(c, k) == 1 + spec_sparse_count(c, k + 1));
        assert(spec_sparse_expected(c, base, k)
            == seq![((base + k) as i64, c[k].0)] + spec_sparse_expected(c, base, k + 1));
    }
}

/// Law: decoding the store frame written for an occupied window recovers
/// exactly the window's bins with their raw weight patterns: every bin in
/// the contiguous layout, the non-empty ones in the sparse layout, each at
/// its own bucket index.
pub proof fn lemma_store_frame_round_trip(t: FlagType, min_index: int, c: Seq<(u64, bool)>)
    requires
        1 <= c.len(),
        i32::MIN <= min_index,
        min_index + c.len() <= i32::MAX + 1,
    ensures
        ({
            let bytes = spec_store_frame_bytes(t, min_index, c);
            &&& bytes[0] & 3 == spec_flag_type_marker(t)
            &&& if spec_dense_is_chosen(t, min_index, c) {
                &&& spec_mode_of_sub_flag(bytes[0] >> 2u8)
                    == Some(BinEncodingMode::ContiguousCounts)
                &&& spec_store_bins(bytes, 1, BinEncodingMode::ContiguousCounts)
                    == Some((spec_dense_expected(c, min_index, 0), bytes.len() as int))
            } else {
                &&& spec_mode_of_sub_flag(bytes[0] >> 2u8)
                    == Some(BinEncodingMode::IndexDeltasAndCounts)
                &&& spec_store_bins(bytes, 1, BinEncodingMode::IndexDeltasAndCounts)
                    == Some((spec_sparse_expected(c, min_index, 0), bytes.len() as int))
            }
        }),
{
    let tm = spec_flag_type_marker(t);
    assert(tm <= 3);
    assert(tm <= 3 ==> ((tm | (3u8 << 2u8)) & 3) == tm && ((tm | (3u8 << 2u8)) >> 2u8) == 3
        && ((tm | (1u8 << 2u8)) & 3) == tm && ((tm | (1u8 << 2u8)) >> 2u8) == 1)
        by (bit_vector);
    if spec_dense_is_chosen(t, min_index, c) {
        let bytes = spec_dense_store_bytes(t, min_index, c);
        let h1 = spec_uvarlong_bytes(c.len() as u64);
        let h2 = spec_svarlong_bytes(min_index as i64);
        let h3 = spec_svarlong_bytes(1);
        let body = spec_dense_tokens(c, 0);
        let o1 = 1 + h1.len() as int;
        let o2 = o1 + h2.len() as int;
        let o3 = o2 + h3.len() as int;
        assert(bytes.len() == o3 + body.len());
        assert(bytes.subrange(1, o1) =~= h1) by {
            assert forall|x: int| 0 <= x < h1.len()
                implies bytes.subrange(1, o1)[x] == h1[x] by {
                assert(bytes[1 + x] == h1[x]);
            }
        }
        crate::varenc::lemma_unsigned_var_long_round_trip(bytes, 1, c.len() as u64);
        assert(bytes.subrange(o1, o2) =~= h2) by {
            assert forall|x: int| 0 <= x < h2.len()
                implies bytes.subrange(o1, o2)[x] == h2[x] by {
                assert(bytes[o1 + x] == h2[x]);
            }
        }
        crate::varenc::lemma_signed_var_long_round_trip(bytes, o1, min_index as i64);
        assert(bytes.subrange(o2, o3) =~= h3) by {
            assert forall|x: int| 0 <= x < h3.len()
                implies bytes.subrange(o2, o3)[x] == h3[x] by {
                assert(bytes[o2 + x] == h3[x]);
            }
        }
        crate::varenc::lemma_signed_var_long_round_trip(bytes, o2, 1);
        assert(bytes.subrange(o3, o3 + body.len() as int) =~= body) by {
            assert forall|x: int| 0 <= x < body.len()
                implies bytes.subrange(o3, o3 + body.len() as int)[x] == body[x] by {
                assert(bytes[o3 + x] == body[x]);
            }
        }
        lemma_dense_bins_round_trip(bytes, o3, c, min_index, 0);
        assert(((c.len() as u64) as i64) as int == c.len()) by {
            assert(c.len() <= 0x100000000);
            assert(forall|v: u64| v <= 0x100000000 ==> #[trigger] (v as i64) == v as int)
                by (bit_vector);
        }
    } else {
        let bytes = spec_sparse_store_bytes(t, min_index, c);
        let h1 = spec_uvarlong_bytes(spec_sparse_count(c, 0) as u64);
        let body = spec_sparse_tokens(c, min_index, 0, 0);
        let o1 = 1 + h1.len() as int;
        assert(bytes.len() == o1 + body.len());
        assert(bytes.subrange(1, o1) =~= h1) by {
            assert forall|x: int| 0 <= x < h1.len()
                implies bytes.subrange(1, o1)[x] == h1[x] by {
                assert(bytes[1 + x] == h1[x]);
            }
        }
        lemma_sparse_count_bounds(c, 0);
        crate::varenc::lemma_unsigned_var_long_round_trip(bytes, 1, spec_sparse_count(c, 0) as u64);
        assert(bytes.subrange(o1, o1 + body.len() as int) =~= body) by {
            assert forall|x: int| 0 <= x < body.len()
                implies bytes.subrange(o1, o1 + body.len() as int)[x] == body[x] by {
                assert(bytes[o1 + x] == body[x]);
            }
        }
        lemma_sparse_bins_round_trip(bytes, o1, c, min_index, 0, 0);
        assert(((spec_sparse_count(c, 0) as u64) as i64) as int == spec_sparse_count(c, 0)) by {
            lemma_sparse_count_bounds(c, 0);
            assert(0 <= spec_sparse_count(c, 0) <= 0x100000000);
            assert(forall|v: u64| v <= 0x100000000 ==> #[trigger] (v as i64) == v as int)
                by (bit_vector);
        }
    }
}

proof fn lemma_sparse_count_bounds(c: Seq<(u64, bool)>, k: int)
    requires
        0 <= k <= c.len(),
    ensures
        0 <= spec_sparse_count(c, k) <= c.len() - k,
    decreases c.len() - k,
{
    if k < c.len() {
        lemma_sparse_count_bounds(c, k + 1);
    }
}

/// The spare slots kept beyond the requested span when an array grows.
pub const ARRAY_LENGTH_OVERHEAD: i32 = 6;

/// The granularity in which a store's backing array grows.
pub const ARRAY_LENGTH_GROWTH_INCREMENT: i32 = 64;

/// The length a store's backing array takes for a requested index span:
/// the span plus the overhead, rounded up to the next multiple of the
/// growth increment, and capped by the store's bin budget.
pub open spec fn spec_new_length(max_num_bins: int, new_min_index: int, new_max_index: int) -> int {
    let desired = new_max_index - new_min_index + 1;
    let next = ((desired + ARRAY_LENGTH_OVERHEAD - 1) / (ARRAY_LENGTH_GROWTH_INCREMENT as int) + 1)
        * ARRAY_LENGTH_GROWTH_INCREMENT;
    if max_num_bins <= next {
        max_num_bins
    } else {
        next
    }
}

/// Computes the backing-array length for the span `[new_min_index,
/// new_max_index]` under the bin budget `max_num_bins`.
pub fn get_new_length(max_num_bins: i32, new_min_index: i32, new_max_index: i32) -> (r: i32)
    requires
        new_min_index <= new_max_index,
        new_max_index - new_min_index + 70 <= i32::MAX,
    ensures
        r == spec_new_length(max_num_bins as int, new_min_index as int, new_max_index as int),
{
    let desired_length = new_max_index - new_min_index + 1;
    let next = ((desired_length + ARRAY_LENGTH_OVERHEAD - 1) / ARRAY_LENGTH_GROWTH_INCREMENT + 1)
        * ARRAY_LENGTH_GROWTH_INCREMENT;
    if max_num_bins <= next {
        max_num_bins
    } else {
        next
    }
}

} // verus!
