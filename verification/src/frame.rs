//! Frame flags of the wire format.
//!
//! Every frame starts with one flag byte: the low two bits name the kind of
//! frame, the upper six bits carry a sub-flag.

use vstd::prelude::*;
use crate::error::Error;
use crate::io::{Input, Output, spec_u64_le_at, spec_u64_le_bytes};
use crate::store::{BinEncodingMode, decode_store_bins, spec_in_i32, spec_mode_of_sub_flag,
    spec_store_bins, spec_widen_bins};
use crate::varbit::spec_varbit_dec;
use crate::varbit::spec_varbit_from_raw;
use crate::varbit::{decode_var_double_bits, encode_var_double_bits, spec_varbit_bytes};

verus! {

/// The low two bits of a flag byte: the kind of frame that follows.
#[derive(Clone, Copy, PartialEq, Eq, Structural, Debug)]
pub enum FlagType {
    SketchFeatures,
    PositiveStore,
    IndexMapping,
    NegativeStore,
}

/// The two-bit pattern of a frame kind.
pub open spec fn spec_flag_type_marker(t: FlagType) -> u8 {
    match t {
        FlagType::SketchFeatures => 0,
        FlagType::PositiveStore => 1,
        FlagType::IndexMapping => 2,
        FlagType::NegativeStore => 3,
    }
}

impl FlagType {
    /// The frame kind named by a two-bit pattern.
    pub fn value_of(t: u8) -> (r: Result<FlagType, Error>)
        ensures
            match r {
                Ok(ft) => t <= 3 && spec_flag_type_marker(ft) == t,
                Err(e) => t > 3 && e is InvalidArgument,
            },
    {
        match t {
            0 => Ok(FlagType::SketchFeatures),
            1 => Ok(FlagType::PositiveStore),
            2 => Ok(FlagType::IndexMapping),
            3 => Ok(FlagType::NegativeStore),
            _ => Err(Error::InvalidArgument("Unknown FlagType.")),
        }
    }

    fn to_marker(self) -> (r: u8)
        ensures
            r == spec_flag_type_marker(self),
    {
        match self {
            FlagType::SketchFeatures => 0,
            FlagType::PositiveStore => 1,
            FlagType::IndexMapping => 2,
            FlagType::NegativeStore => 3,
        }
    }
}

/// One flag byte.
#[derive(Clone, Copy, PartialEq, Eq, Structural, Debug)]
pub struct Flag {
    marker: u8,
}

impl Flag {
    /// The flag byte itself.
    pub closed spec fn spec_marker(&self) -> u8 {
        self.marker
    }

    pub fn new(marker: u8) -> (r: Flag)
        ensures
            r.spec_marker() == marker,
    {
        Flag { marker }
    }

    /// Reads one flag byte.
    pub fn decode(input: &mut Input) -> (r: Result<Flag, Error>)
        requires
            old(input).wf(),
        ensures
            final(input).wf(),
            final(input).bytes() == old(input).bytes(),
            match r {
                Ok(f) => {
                    &&& old(input).pos() < old(input).bytes().len()
                    &&& f.spec_marker() == old(input).bytes()[old(input).pos()]
                    &&& final(input).pos() == old(input).pos() + 1
                },
                Err(e) => {
                    &&& old(input).pos() == old(input).bytes().len()
                    &&& final(input).pos() == old(input).pos()
                    &&& e is IoError
                },
            },
    {
        let marker = input.read_byte()?;
        Ok(Flag::new(marker))
    }

    /// The kind of frame this flag opens; the two-bit pattern always names
    /// one.
    pub fn get_type(&self) -> (r: Result<FlagType, Error>)
        ensures
            match r {
                Ok(t) => spec_flag_type_marker(t) == self.spec_marker() & 3,
                Err(_) => false,
            },
    {
        let m = self.marker;
        proof {
            assert(m & 3 <= 3) by (bit_vector);
        }
        FlagType::value_of(m & 3)
    }

    pub fn get_marker(&self) -> (r: u8)
        ensures
            r == self.spec_marker(),
    {
        self.marker
    }

    /// Writes the flag byte.
    pub fn encode(&self, output: &mut Output) -> (r: Result<(), Error>)
        ensures
            r is Ok,
            final(output).bytes() == old(output).bytes().push(self.spec_marker()),
    {
        output.write_byte(self.marker)
    }

    /// The flag byte for a frame kind and a sub-flag.
    pub fn with_type(flag_type: FlagType, sub_flag: u8) -> (r: Flag)
        ensures
            r.spec_marker() == spec_flag_type_marker(flag_type) | (sub_flag << 2u8),
    {
        let t = flag_type.to_marker();
        Flag::new(t | (sub_flag << 2u8))
    }

    /// The flag announcing a zero-count feature frame.
    pub fn zero_count() -> (r: Flag)
        ensures
            r.spec_marker() == 0x04,
    {
        Flag { marker: 0x04 }
    }

    /// The flag announcing a discarded total-count summary statistic.
    pub fn count() -> (r: Flag)
        ensures
            r.spec_marker() == 0xa0,
    {
        Flag { marker: 0xa0 }
    }

    /// The flag announcing a discarded sum summary statistic.
    pub fn sum() -> (r: Flag)
        ensures
            r.spec_marker() == 0x84,
    {
        Flag { marker: 0x84 }
    }

    /// The flag announcing a discarded minimum summary statistic.
    pub fn min() -> (r: Flag)
        ensures
            r.spec_marker() == 0x88,
    {
        Flag { marker: 0x88 }
    }

    /// The flag announcing a discarded maximum summary statistic.
    pub fn max() -> (r: Flag)
        ensures
            r.spec_marker() == 0x8c,
    {
        Flag { marker: 0x8c }
    }
}

/// The sub-flag of an index-mapping frame: which mapping family wrote it.
#[derive(Clone, Copy, PartialEq, Eq, Structural, Debug)]
pub enum IndexMappingLayout {
    LOG,
    LogLinear,
    LogQuadratic,
    LogCubic,
    LogQuartic,
}

/// The sub-flag value of a mapping layout.
pub open spec fn spec_layout_sub_flag(l: IndexMappingLayout) -> u8 {
    match l {
        IndexMappingLayout::LOG => 0,
        IndexMappingLayout::LogLinear => 1,
        IndexMappingLayout::LogQuadratic => 2,
        IndexMappingLayout::LogCubic => 3,
        IndexMappingLayout::LogQuartic => 4,
    }
}

impl IndexMappingLayout {
    /// The mapping layout named by a flag's sub-flag.
    pub fn of_flag(flag: &Flag) -> (r: Result<IndexMappingLayout, Error>)
        ensures
            match r {
                Ok(l) => spec_layout_sub_flag(l) == flag.spec_marker() >> 2u8,
                Err(e) => flag.spec_marker() >> 2u8 > 4 && e is InvalidArgument,
            },
    {
        let index = flag.get_marker() >> 2u8;
        match index {
            0 => Ok(IndexMappingLayout::LOG),
            1 => Ok(IndexMappingLayout::LogLinear),
            2 => Ok(IndexMappingLayout::LogQuadratic),
            3 => Ok(IndexMappingLayout::LogCubic),
            4 => Ok(IndexMappingLayout::LogQuartic),
            _ => Err(Error::InvalidArgument("Unknown Index Flag.")),
        }
    }

    /// The flag byte opening an index-mapping frame of this layout.
    pub fn to_flag(self) -> (r: Flag)
        ensures
            r.spec_marker() == 2 | (spec_layout_sub_flag(self) << 2u8),
    {
        let sub_flag = match self {
            IndexMappingLayout::LOG => 0,
            IndexMappingLayout::LogLinear => 1,
            IndexMappingLayout::LogQuadratic => 2,
            IndexMappingLayout::LogCubic => 3,
            IndexMappingLayout::LogQuartic => 4,
        };
        Flag::with_type(FlagType::IndexMapping, sub_flag)
    }
}

/// Consumes and discards the payload of a summary-statistic feature frame:
/// a variable-length double for the total count, eight little-endian bytes
/// for the sum, the minimum or the maximum.  Any other feature flag is
/// rejected.
pub fn ignore_exact_summary_statistic_flags(input: &mut Input, flag: Flag) -> (r: Result<(), Error>)
    requires
        old(input).wf(),
    ensures
        final(input).wf(),
        final(input).bytes() == old(input).bytes(),
        flag.spec_marker() == 0xa0 ==> match r {
            Ok(_) => spec_varbit_dec(old(input).bytes(), old(input).pos())
                matches Some(p) && final(input).pos() == p.1,
            Err(e) => {
                &&& spec_varbit_dec(old(input).bytes(), old(input).pos()) is None
                &&& e is IoError
                &&& final(input).pos() == old(input).bytes().len()
            },
        },
        flag.spec_marker() == 0x84 || flag.spec_marker() == 0x88 || flag.spec_marker() == 0x8c
            ==> match r {
            Ok(_) => final(input).pos() == old(input).pos() + 8,
            Err(e) => {
                &&& old(input).pos() + 8 > old(input).bytes().len()
                &&& e is IoError
                &&& final(input).pos() == old(input).pos()
            },
        },
        !(flag.spec_marker() == 0xa0 || flag.spec_marker() == 0x84
            || flag.spec_marker() == 0x88 || flag.spec_marker() == 0x8c) ==> {
            &&& r matches Err(e) && e is InvalidArgument
            &&& final(input).pos() == old(input).pos()
        },
{
    if flag == Flag::count() {
        decode_var_double_bits(input)?;
        Ok(())
    } else if flag == Flag::sum() || flag == Flag::min() || flag == Flag::max() {
        input.read_long_le()?;
        Ok(())
    } else {
        Err(Error::InvalidArgument("Unknown Flag."))
    }
}

/// Writes an index-mapping frame: its flag byte, then gamma and the index
/// offset as little-endian doubles, given as raw bit patterns.
pub fn encode_mapping_frame(
    output: &mut Output,
    layout: IndexMappingLayout,
    gamma_bits: u64,
    index_offset_bits: u64,
) -> (r: Result<(), Error>)
    ensures
        r is Ok,
        final(output).bytes() == old(output).bytes()
            .push(2 | spec_layout_sub_flag(layout) << 2u8)
            + spec_u64_le_bytes(gamma_bits) + spec_u64_le_bytes(index_offset_bits),
{
    layout.to_flag().encode(output)?;
    output.write_long_le(gamma_bits)?;
    output.write_long_le(index_offset_bits)?;
    proof {
        assert(output.bytes() =~= old(output).bytes()
            .push(2 | spec_layout_sub_flag(layout) << 2u8)
            + spec_u64_le_bytes(gamma_bits) + spec_u64_le_bytes(index_offset_bits));
    }
    Ok(())
}

/// Writes a zero-count feature frame: its flag byte and the count as one
/// variable-length double token, given as the raw pattern of the count plus
/// one.
pub fn encode_zero_count_frame(output: &mut Output, count_raw: u64) -> (r: Result<(), Error>)
    ensures
        r is Ok,
        final(output).bytes() == old(output).bytes().push(0x04)
            + spec_varbit_bytes(spec_varbit_from_raw(count_raw)),
{
    Flag::zero_count().encode(output)?;
    encode_var_double_bits(output, count_raw)?;
    proof {
        assert(output.bytes() =~= old(output).bytes().push(0x04)
            + spec_varbit_bytes(spec_varbit_from_raw(count_raw)));
    }
    Ok(())
}

/// Whether two index-mapping headers are identical on the wire: the same
/// layout and byte-identical gamma and index-offset patterns.  This is the
/// identity that merging and decoding check a mapping by.
pub fn mapping_headers_match(
    a_layout: IndexMappingLayout,
    a_gamma_bits: u64,
    a_index_offset_bits: u64,
    b_layout: IndexMappingLayout,
    b_gamma_bits: u64,
    b_index_offset_bits: u64,
) -> (r: bool)
    ensures
        r == (a_layout == b_layout && a_gamma_bits == b_gamma_bits
            && a_index_offset_bits == b_index_offset_bits),
{
    a_layout == b_layout && a_gamma_bits == b_gamma_bits
        && a_index_offset_bits == b_index_offset_bits
}

/// Law: the index-mapping frame written for a layout and two raw patterns
/// announces exactly that layout and carries exactly those patterns.
pub proof fn lemma_mapping_frame_round_trip(
    layout: IndexMappingLayout,
    gamma_bits: u64,
    index_offset_bits: u64,
)
    ensures
        ({
            let bytes = seq![2 | spec_layout_sub_flag(layout) << 2u8]
                + crate::io::spec_u64_le_bytes(gamma_bits)
                + crate::io::spec_u64_le_bytes(index_offset_bits);
            &&& bytes.len() == 17
            &&& bytes[0] & 3 == 2
            &&& bytes[0] >> 2u8 == spec_layout_sub_flag(layout)
            &&& spec_u64_le_at(bytes, 1) == gamma_bits
            &&& spec_u64_le_at(bytes, 9) == index_offset_bits
        }),
{
    let sub = spec_layout_sub_flag(layout);
    let bytes = seq![2 | sub << 2u8]
        + crate::io::spec_u64_le_bytes(gamma_bits)
        + crate::io::spec_u64_le_bytes(index_offset_bits);
    assert(sub <= 4);
    assert(sub <= 4 ==> ((2 | sub << 2u8) & 3) == 2 && ((2 | sub << 2u8) >> 2u8) == sub)
        by (bit_vector);
    assert(bytes.subrange(1, 9) =~= crate::io::spec_u64_le_bytes(gamma_bits));
    crate::io::lemma_u64_le_round_trip(bytes, 1, gamma_bits);
    assert(bytes.subrange(9, 17) =~= crate::io::spec_u64_le_bytes(index_offset_bits));
    crate::io::lemma_u64_le_round_trip(bytes, 9, index_offset_bits);
}

/// Law: the zero-count frame written for a raw pattern announces a zero
/// count and decodes back to exactly that pattern.
pub proof fn lemma_zero_count_frame_round_trip(count_raw: u64)
    ensures
        ({
            let bytes = seq![4u8] + spec_varbit_bytes(spec_varbit_from_raw(count_raw));
            &&& bytes[0] == 0x04
            &&& spec_varbit_dec(bytes, 1)
                == Some((spec_varbit_from_raw(count_raw), bytes.len() as int))
            &&& crate::varbit::spec_varbit_to_raw(spec_varbit_from_raw(count_raw)) == count_raw
        }),
{
    let tok = spec_varbit_bytes(spec_varbit_from_raw(count_raw));
    let bytes = seq![4u8] + tok;
    assert(bytes.subrange(1, 1 + tok.len() as int) =~= tok);
    crate::varbit::lemma_var_double_bits_round_trip(bytes, 1, count_raw);
}

/// One decoded frame of a serialized sketch, on plain values: every double
/// stays as its raw IEEE-754 bit pattern.
pub enum DecodedFrame {
    /// An index-mapping frame: the layout, and the raw patterns of gamma and
    /// of the index offset.
    IndexMapping { layout: IndexMappingLayout, gamma_bits: u64, index_offset_bits: u64 },
    /// A zero-count feature frame: the raw pattern of the added count plus
    /// one.
    ZeroCount { count_raw: u64 },
    /// A positive-store frame: its bins, each a bucket index and the raw
    /// pattern of its weight plus one.
    PositiveStore { bins: Vec<(i32, u64)> },
    /// A negative-store frame: its bins, as above.
    NegativeStore { bins: Vec<(i32, u64)> },
}

/// Reads one frame: the flag byte and the whole payload it announces.
/// A discarded summary-statistic frame comes back as `None`.
pub fn decode_frame(input: &mut Input) -> (r: Result<Option<DecodedFrame>, Error>)
    requires
        old(input).wf(),
    ensures
        final(input).wf(),
        final(input).bytes() == old(input).bytes(),
        ({
            let s = old(input).bytes();
            let i = old(input).pos();
            match r {
                Ok(of) => i < s.len() && match of {
                    Some(f) => match f {
                        DecodedFrame::IndexMapping { layout, gamma_bits, index_offset_bits } => {
                            &&& s[i] & 3 == 2
                            &&& spec_layout_sub_flag(layout) == s[i] >> 2u8
                            &&& i + 17 <= s.len()
                            &&& gamma_bits == spec_u64_le_at(s, i + 1)
                            &&& index_offset_bits == spec_u64_le_at(s, i + 9)
                            &&& final(input).pos() == i + 17
                        },
                        DecodedFrame::ZeroCount { count_raw } => {
                            &&& s[i] == 0x04
                            &&& spec_varbit_dec(s, i + 1)
                                == Some((spec_varbit_from_raw(count_raw), final(input).pos()))
                        },
                        DecodedFrame::PositiveStore { bins } => {
                            &&& s[i] & 3 == 1
                            &&& spec_mode_of_sub_flag(s[i] >> 2u8) matches Some(m)
                                && spec_store_bins(s, i + 1, m) matches Some(p)
                                && spec_widen_bins(bins@) == p.0
                                && final(input).pos() == p.1
                        },
                        DecodedFrame::NegativeStore { bins } => {
                            &&& s[i] & 3 == 3
                            &&& spec_mode_of_sub_flag(s[i] >> 2u8) matches Some(m)
                                && spec_store_bins(s, i + 1, m) matches Some(p)
                                && spec_widen_bins(bins@) == p.0
                                && final(input).pos() == p.1
                        },
                    },
                    None => {
                        &&& s[i] == 0xa0 || s[i] == 0x84 || s[i] == 0x88 || s[i] == 0x8c
                        &&& s[i] == 0xa0 ==> (spec_varbit_dec(s, i + 1) matches Some(p)
                            && final(input).pos() == p.1)
                        &&& s[i] != 0xa0 ==> final(input).pos() == i + 9
                    },
                },
                Err(e) => {
                    &&& e is IoError || e is InvalidArgument
                    &&& e is InvalidArgument ==> i < s.len() && {
                        ||| s[i] & 3 == 2 && s[i] >> 2u8 > 4
                        ||| (s[i] & 3 == 1 || s[i] & 3 == 3)
                            && spec_mode_of_sub_flag(s[i] >> 2u8) is None
                        ||| (s[i] & 3 == 1 || s[i] & 3 == 3)
                            && (spec_mode_of_sub_flag(s[i] >> 2u8) matches Some(m)
                                && (spec_store_bins(s, i + 1, m) matches Some(p)
                                    ==> exists|j: int| 0 <= j < p.0.len()
                                        && !spec_in_i32(#[trigger] p.0[j].0)))
                        ||| s[i] & 3 == 0 && !(s[i] == 0x04 || s[i] == 0xa0 || s[i] == 0x84
                            || s[i] == 0x88 || s[i] == 0x8c)
                    }
                    &&& e is IoError ==> {
                        ||| i == s.len()
                        ||| i < s.len() && {
                            ||| s[i] & 3 == 2 && s[i] >> 2u8 <= 4 && i + 17 > s.len()
                            ||| (s[i] == 0x04 || s[i] == 0xa0) && spec_varbit_dec(s, i + 1) is None
                            ||| (s[i] == 0x84 || s[i] == 0x88 || s[i] == 0x8c) && i + 9 > s.len()
                            ||| (s[i] & 3 == 1 || s[i] & 3 == 3)
                                && (spec_mode_of_sub_flag(s[i] >> 2u8) matches Some(m)
                                    && spec_store_bins(s, i + 1, m) is None)
                        }
                    }
                },
            }
        }),
{
    let flag = Flag::decode(input)?;
    let flag_type = flag.get_type()?;
    let m = flag.get_marker();
    match flag_type {
        FlagType::PositiveStore => {
            proof {
                assert(m & 3 == 1);
            }
            let mode = BinEncodingMode::of_flag(m)?;
            let bins = decode_store_bins(input, mode)?;
            Ok(Some(DecodedFrame::PositiveStore { bins }))
        },
        FlagType::NegativeStore => {
            proof {
                assert(m & 3 == 3);
            }
            let mode = BinEncodingMode::of_flag(m)?;
            let bins = decode_store_bins(input, mode)?;
            Ok(Some(DecodedFrame::NegativeStore { bins }))
        },
        FlagType::IndexMapping => {
            proof {
                assert(m & 3 == 2);
            }
            let layout = IndexMappingLayout::of_flag(&flag)?;
            let gamma_bits = input.read_long_le()?;
            let index_offset_bits = input.read_long_le()?;
            Ok(Some(DecodedFrame::IndexMapping { layout, gamma_bits, index_offset_bits }))
        },
        FlagType::SketchFeatures => {
            proof {
                assert(m & 3 == 0);
            }
            if flag == Flag::zero_count() {
                let count_raw = decode_var_double_bits(input)?;
                Ok(Some(DecodedFrame::ZeroCount { count_raw }))
            } else {
                ignore_exact_summary_statistic_flags(input, flag)?;
                Ok(None)
            }
        },
    }
}

} // verus!
