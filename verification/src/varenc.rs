//! Variable-length integer codec of the wire format.
//!
//! Unsigned values are written in little-endian groups of seven bits with the
//! high bit of each byte marking continuation; a ninth byte, when needed,
//! carries the remaining eight bits without a continuation mark.  Signed
//! values are first mapped to unsigned ones by the ZigZag transform, which
//! interleaves the sign so that small magnitudes stay short.

use vstd::prelude::*;
use crate::error::Error;
use crate::io::{Input, Output};

verus! {

/// Bytes of the unsigned variable-length encoding of `v`, low group first,
/// with `groups` continuation bytes still allowed.  When none is allowed the
/// remaining value is emitted as one full byte.
pub open spec fn spec_uvarlong_enc_rec(v: u64, groups: nat) -> Seq<u8>
    decreases groups,
{
    if groups == 0 || v < 0x80 {
        seq![v as u8]
    } else {
        seq![(v as u8) | 0x80] + spec_uvarlong_enc_rec(v >> 7u64, (groups - 1) as nat)
    }
}

/// The full encoding of `v`: at most eight continuation bytes, nine bytes in
/// all.
pub open spec fn spec_uvarlong_bytes(v: u64) -> Seq<u8> {
    spec_uvarlong_enc_rec(v, 8)
}

/// Decoding of an unsigned variable-length token from `s` starting at `i`,
/// with `groups` continuation bytes still allowed and `acc` holding the
/// groups read so far.  Yields the value and the index just past the token,
/// or `None` when the input ends first.
pub open spec fn spec_uvarlong_dec_rec(s: Seq<u8>, i: int, groups: nat, acc: u64) -> Option<(u64, int)>
    decreases groups,
{
    if i < 0 || i >= s.len() {
        None
    } else {
        let b = s[i];
        let shift = (7 * (8 - groups)) as u64;
        if groups == 0 || b < 0x80 {
            Some((acc | (b as u64) << shift, i + 1))
        } else {
            spec_uvarlong_dec_rec(s, i + 1, (groups - 1) as nat, acc | ((b & 0x7f) as u64) << shift)
        }
    }
}

/// Decoding of an unsigned variable-length token from `s` starting at `i`.
pub open spec fn spec_uvarlong_dec(s: Seq<u8>, i: int) -> Option<(u64, int)> {
    spec_uvarlong_dec_rec(s, i, 8, 0)
}

/// Reads one unsigned variable-length token.  The result is the decoded
/// 64-bit pattern, reinterpreted as a signed integer as the store codec
/// expects.
pub fn decode_unsigned_var_long(input: &mut Input) -> (r: Result<i64, Error>)
    requires
        old(input).wf(),
    ensures
        final(input).wf(),
        final(input).bytes() == old(input).bytes(),
        match r {
            Ok(v) => spec_uvarlong_dec(old(input).bytes(), old(input).pos())
                == Some((v as u64, final(input).pos())),
            Err(e) => {
                &&& spec_uvarlong_dec(old(input).bytes(), old(input).pos()) is None
                &&& e is IoError
                &&& final(input).pos() == old(input).bytes().len()
            },
        },
{
    let mut value: u64 = 0;
    let mut shift: u64 = 0;
    loop
        invariant
            input.wf(),
            input.bytes() == old(input).bytes(),
            old(input).pos() <= input.pos() <= input.bytes().len(),
            shift % 7 == 0,
            shift <= 56,
            spec_uvarlong_dec_rec(input.bytes(), input.pos(), ((56 - shift) / 7) as nat, value)
                == spec_uvarlong_dec(old(input).bytes(), old(input).pos()),
        decreases 56 - shift,
    {
        let ghost pre_pos = input.pos();
        let ghost g = ((56 - shift) / 7) as nat;
        proof {
            assert(7 * (8 - g) == shift);
        }
        let next = input.read_byte()?;
        if next < 0x80 || shift == 56 {
            proof {
                assert(spec_uvarlong_dec_rec(input.bytes(), pre_pos, g, value)
                    == Some(((value | (next as u64) << shift), pre_pos + 1)));
                assert(((value | (next as u64) << shift) as i64) as u64
                    == value | (next as u64) << shift) by (bit_vector);
            }
            return Ok((value | (next as u64) << shift) as i64);
        }
        proof {
            assert(g >= 1);
            assert(spec_uvarlong_dec_rec(input.bytes(), pre_pos, g, value)
                == spec_uvarlong_dec_rec(input.bytes(), pre_pos + 1, (g - 1) as nat,
                    value | ((next & 0x7f) as u64) << shift));
            assert(((56 - (shift + 7)) / 7) as nat == (g - 1) as nat);
        }
        value = value | ((next & 0x7f) as u64) << shift;
        shift = shift + 7;
    }
}

/// Writes the unsigned variable-length encoding of `value`.
pub fn encode_unsigned_var_long(output: &mut Output, value: i64) -> (r: Result<(), Error>)
    ensures
        r is Ok,
        final(output).bytes() == old(output).bytes() + spec_uvarlong_bytes(value as u64),
{
    let mut v: u64 = value as u64;
    let mut i: u64 = 0;
    while v >= 0x80 && i < 8
        invariant
            i <= 8,
            old(output).bytes() + spec_uvarlong_bytes(value as u64)
                == output.bytes() + spec_uvarlong_enc_rec(v, (8 - i) as nat),
        decreases 8 - i,
    {
        proof {
            assert(spec_uvarlong_enc_rec(v, (8 - i) as nat)
                == seq![(v as u8) | 0x80] + spec_uvarlong_enc_rec(v >> 7u64, (8 - (i + 1)) as nat));
        }
        output.write_byte((v as u8) | 0x80)?;
        proof {
            assert(old(output).bytes() + spec_uvarlong_bytes(value as u64)
                =~= output.bytes() + spec_uvarlong_enc_rec(v >> 7u64, (8 - (i + 1)) as nat));
        }
        v = v >> 7u64;
        i = i + 1;
    }
    proof {
        assert(spec_uvarlong_enc_rec(v, (8 - i) as nat) == seq![v as u8]);
    }
    output.write_byte(v as u8)?;
    proof {
        assert(final(output).bytes() =~= old(output).bytes() + spec_uvarlong_bytes(value as u64));
    }
    Ok(())
}

/// The ZigZag image of the 64-bit pattern `w`: the value is shifted up one
/// bit and the low bit carries the sign.
pub open spec fn spec_zig_zag_enc_u(w: u64) -> u64 {
    (w << 1u64) ^ (if w >= 0x8000000000000000 { 0xffffffffffffffffu64 } else { 0u64 })
}

/// The inverse of the ZigZag transform, on 64-bit patterns.
pub open spec fn spec_zig_zag_dec_u(u: u64) -> u64 {
    (u >> 1u64) ^ (if u & 1 == 1 { 0xffffffffffffffffu64 } else { 0u64 })
}

/// ZigZag encoding of a signed value.
pub open spec fn spec_zig_zag_encode(value: i64) -> u64 {
    spec_zig_zag_enc_u(value as u64)
}

/// ZigZag decoding back to a signed value.
pub open spec fn spec_zig_zag_decode(u: u64) -> i64 {
    spec_zig_zag_dec_u(u) as i64
}

fn zig_zag_encode(value: i64) -> (r: i64)
    ensures
        r as u64 == spec_zig_zag_encode(value),
{
    let w = value as u64;
    let mask: u64 = if value < 0 { 0xffffffffffffffff } else { 0 };
    proof {
        assert(value < 0 <==> (value as u64) >= 0x8000000000000000) by (bit_vector);
        assert((((value as u64) << 1u64) ^ mask) as i64 as u64 == ((value as u64) << 1u64) ^ mask)
            by (bit_vector);
    }
    ((w << 1u64) ^ mask) as i64
}

fn zig_zag_decode(value: i64) -> (r: i64)
    ensures
        r == spec_zig_zag_decode(value as u64),
{
    let u = value as u64;
    let mask: u64 = if u & 1 == 1 { 0xffffffffffffffff } else { 0 };
    ((u >> 1u64) ^ mask) as i64
}

/// Decoding of a signed token: the unsigned token, ZigZag-inverted.
pub open spec fn spec_svarlong_dec(s: Seq<u8>, i: int) -> Option<(i64, int)> {
    match spec_uvarlong_dec(s, i) {
        Some(p) => Some((spec_zig_zag_decode(p.0), p.1)),
        None => None,
    }
}

/// The bytes of the signed encoding of `value`: the unsigned encoding of its
/// ZigZag image.
pub open spec fn spec_svarlong_bytes(value: i64) -> Seq<u8> {
    spec_uvarlong_bytes(spec_zig_zag_encode(value))
}

/// Reads one ZigZag-encoded signed variable-length token.
pub fn decode_signed_var_long(input: &mut Input) -> (r: Result<i64, Error>)
    requires
        old(input).wf(),
    ensures
        final(input).wf(),
        final(input).bytes() == old(input).bytes(),
        match r {
            Ok(v) => spec_svarlong_dec(old(input).bytes(), old(input).pos())
                == Some((v, final(input).pos())),
            Err(e) => {
                &&& spec_svarlong_dec(old(input).bytes(), old(input).pos()) is None
                &&& e is IoError
                &&& final(input).pos() == old(input).bytes().len()
            },
        },
{
    let u = decode_unsigned_var_long(input)?;
    Ok(zig_zag_decode(u))
}

/// Writes the ZigZag-encoded signed variable-length token of `value`.
pub fn encode_signed_var_long(output: &mut Output, value: i64) -> (r: Result<(), Error>)
    ensures
        r is Ok,
        final(output).bytes() == old(output).bytes() + spec_svarlong_bytes(value),
{
    let z = zig_zag_encode(value);
    encode_unsigned_var_long(output, z)
}

/// Number of bytes of the unsigned encoding of `value`.
pub fn unsigned_var_long_encoded_length(value: i64) -> (r: i64)
    ensures
        r == spec_uvarlong_bytes(value as u64).len(),
        1 <= r <= 9,
{
    let mut v: u64 = value as u64;
    let mut n: i64 = 1;
    while v >= 0x80 && n < 9
        invariant
            1 <= n <= 9,
            spec_uvarlong_bytes(value as u64).len()
                == n - 1 + spec_uvarlong_enc_rec(v, (9 - n) as nat).len(),
        decreases 9 - n,
    {
        proof {
            assert(spec_uvarlong_enc_rec(v, (9 - n) as nat)
                == seq![(v as u8) | 0x80] + spec_uvarlong_enc_rec(v >> 7u64, (9 - (n + 1)) as nat));
        }
        v = v >> 7u64;
        n = n + 1;
    }
    proof {
        assert(spec_uvarlong_enc_rec(v, (9 - n) as nat).len() == 1);
    }
    n
}

/// Number of bytes of the signed encoding of `value`.
pub fn signed_var_long_encoded_length(value: i64) -> (r: i64)
    ensures
        r == spec_svarlong_bytes(value).len(),
        1 <= r <= 9,
{
    let z = zig_zag_encode(value);
    unsigned_var_long_encoded_length(z)
}

proof fn lemma_uvarlong_round_trip_rec(s: Seq<u8>, i: int, v: u64, groups: nat, shift: u64, acc: u64)
    requires
        0 <= i,
        groups <= 8,
        shift == 7 * (8 - groups),
        groups < 8 ==> v < (1u64 << (7 * groups + 8) as u64),
        i + spec_uvarlong_enc_rec(v, groups).len() <= s.len(),
        s.subrange(i, i + spec_uvarlong_enc_rec(v, groups).len() as int)
            == spec_uvarlong_enc_rec(v, groups),
    ensures
        spec_uvarlong_dec_rec(s, i, groups, acc)
            == Some(((acc | (v << shift)) as u64, i + spec_uvarlong_enc_rec(v, groups).len())),
    decreases groups,
{
    let enc = spec_uvarlong_enc_rec(v, groups);
    assert(s[i] == enc[0]);
    if groups == 0 {
        assert(shift == 56);
        let b = v as u8;
        assert(v < (1u64 << 8u64) ==> v < 0x100) by (bit_vector);
        assert(v < 0x100 ==> ((v as u8) as u64) << 56u64 == v << 56u64) by (bit_vector);
        assert(spec_uvarlong_dec_rec(s, i, groups, acc) == Some(((acc | (v << shift)) as u64, i + 1)));
    } else if v < 0x80 {
        let b = v as u8;
        assert(v < 0x80 ==> (v as u8) < 0x80 && ((v as u8) as u64) << shift == v << shift)
            by (bit_vector);
        assert(spec_uvarlong_dec_rec(s, i, groups, acc) == Some(((acc | (v << shift)) as u64, i + 1)));
    } else {
        let b = (v as u8) | 0x80;
        let g1 = (groups - 1) as nat;
        let sg: u64 = groups as u64;
        assert(v >= 0x80 ==> ((v as u8) | 0x80) >= 0x80
            && ((((v as u8) | 0x80) & 0x7f) as u64) == v & 0x7f) by (bit_vector);
        let acc2 = acc | ((b & 0x7f) as u64) << shift;
        let enc1 = spec_uvarlong_enc_rec(v >> 7u64, g1);
        assert(enc == seq![b] + enc1);
        assert(s.subrange(i + 1, i + 1 + enc1.len() as int) =~= enc1) by {
            assert forall|k: int| 0 <= k < enc1.len()
                implies s.subrange(i + 1, i + 1 + enc1.len() as int)[k] == enc1[k] by {
                assert(s.subrange(i + 1, i + 1 + enc1.len() as int)[k]
                    == s.subrange(i, i + enc.len() as int)[k + 1]);
            }
        }
        assert(1 <= sg <= 8 && shift == 7 * (8 - sg) ==>
            (v >> 7u64) < (1u64 << ((7 * (sg - 1) + 8) as u64))) by (bit_vector)
            requires sg < 8 ==> v < (1u64 << (7 * sg + 8) as u64);
        lemma_uvarlong_round_trip_rec(s, i + 1, v >> 7u64, g1, (shift + 7) as u64, acc2);
        assert(shift <= 49 ==>
            ((acc | ((v & 0x7f) << shift)) | ((v >> 7u64) << (shift + 7) as u64))
                == acc | (v << shift)) by (bit_vector);
        assert(spec_uvarlong_dec_rec(s, i, groups, acc)
            == spec_uvarlong_dec_rec(s, i + 1, g1, acc2));
    }
}

/// Law: a decoder starting at the unsigned variable-length token of `v`
/// recovers exactly `v` and stops at the byte just past the token.
pub proof fn lemma_unsigned_var_long_round_trip(s: Seq<u8>, i: int, v: u64)
    requires
        0 <= i,
        i + spec_uvarlong_bytes(v).len() <= s.len(),
        s.subrange(i, i + spec_uvarlong_bytes(v).len() as int) == spec_uvarlong_bytes(v),
    ensures
        spec_uvarlong_dec(s, i) == Some((v, i + spec_uvarlong_bytes(v).len())),
{
    lemma_uvarlong_round_trip_rec(s, i, v, 8, 0, 0);
    assert((0u64 | (v << 0u64)) == v) by (bit_vector);
}

/// Law: the ZigZag transform is a bijection; decoding its image gives back
/// the value.
pub proof fn lemma_zig_zag_round_trip(value: i64)
    ensures
        spec_zig_zag_decode(spec_zig_zag_encode(value)) == value,
{
    let w = value as u64;
    assert(spec_zig_zag_dec_u(spec_zig_zag_enc_u(w)) == w) by (bit_vector);
    assert((value as u64) as i64 == value) by (bit_vector);
}

/// Law: the ZigZag transform interleaves the sign: a non-negative value maps
/// to twice itself, a negative one to minus twice itself minus one, so small
/// magnitudes of either sign get short tokens.
pub proof fn lemma_zig_zag_magnitude(value: i64)
    ensures
        value >= 0 ==> spec_zig_zag_encode(value) == 2 * value,
        value < 0 ==> spec_zig_zag_encode(value) == -2 * value - 1,
{
    assert(value < 0 <==> (value as u64) >= 0x8000000000000000) by (bit_vector);
    assert(value >= 0 ==> (((value as u64) << 1u64) ^ 0u64) == 2 * value) by (bit_vector);
    assert(value < 0 ==> (((value as u64) << 1u64) ^ 0xffffffffffffffffu64) == -2 * value - 1)
        by (bit_vector);
}

/// Law: decoding the signed variable-length token of `value` yields `value`
/// and stops at the byte just past the token.
pub proof fn lemma_signed_var_long_round_trip(s: Seq<u8>, i: int, value: i64)
    requires
        0 <= i,
        i + spec_svarlong_bytes(value).len() <= s.len(),
        s.subrange(i, i + spec_svarlong_bytes(value).len() as int) == spec_svarlong_bytes(value),
    ensures
        spec_svarlong_dec(s, i) == Some((value, i + spec_svarlong_bytes(value).len())),
{
    lemma_unsigned_var_long_round_trip(s, i, spec_zig_zag_encode(value));
    lemma_zig_zag_round_trip(value);
}

/// Narrows to 32 bits, rejecting values that do not fit.
pub fn i64_to_i32_exact(value: i64) -> (r: Result<i32, Error>)
    ensures
        match r {
            Ok(v) => i32::MIN <= value <= i32::MAX && v == value,
            Err(e) => (value < i32::MIN || value > i32::MAX) && e is InvalidArgument,
        },
{
    if value < -2147483648i64 || value > 2147483647i64 {
        return Err(Error::InvalidArgument("Value is not valid i32."));
    }
    Ok(value as i32)
}

/// Widens to an index, rejecting negative values.
pub fn i32_to_usize_exact(value: i32) -> (r: Result<usize, Error>)
    ensures
        match r {
            Ok(v) => value >= 0 && v == value,
            Err(e) => value < 0 && e is InvalidArgument,
        },
{
    if value < 0 {
        return Err(Error::InvalidArgument("Value should be grate than 0."));
    }
    Ok(value as usize)
}

/// The unbiased binary exponent held in an IEEE-754 bit pattern.
pub open spec fn spec_ieee_exponent(bits: u64) -> int {
    ((bits >> 52u64) & 0x7ff) - 1023
}

/// Extracts the unbiased exponent field of a double's bit pattern.
pub fn get_exponent(long_bits: i64) -> (r: i64)
    ensures
        r == spec_ieee_exponent(long_bits as u64),
        -1023 <= r <= 1024,
{
    let u = long_bits as u64;
    proof {
        assert(((u >> 52u64) & 0x7ff) <= 2047) by (bit_vector);
    }
    (((u >> 52u64) & 0x7ff) as i64) - 1023
}

} // verus!
