//! Variable-length encoding of doubles, on raw IEEE-754 bit patterns.
//!
//! A double `v` is carried on the wire as the bit pattern of `v + 1` minus
//! the pattern of `1.0`, rotated left by six bits.  The rotated pattern is
//! emitted in groups of seven bits from the top, the high bit of each byte
//! marking continuation; emission stops as soon as the residual pattern is
//! zero, and a ninth byte, when needed, carries the remaining eight bits
//! without a continuation mark.  This module works entirely on the 64-bit
//! patterns; turning a pattern into a double is one reinterpretation and one
//! subtraction of 1, left to the caller.

use vstd::prelude::*;
use crate::error::Error;
use crate::io::{Input, Output};

verus! {

/// The IEEE-754 bit pattern of 1.0.
pub const DOUBLE_ONE_BITS: u64 = 0x3ff0000000000000;

/// Wrapping 64-bit sum.
pub open spec fn spec_wrapping_add(a: u64, b: u64) -> u64 {
    if a <= 0xffffffffffffffff - b {
        (a + b) as u64
    } else {
        (a - (0xffffffffffffffff - b) - 1) as u64
    }
}

/// Wrapping 64-bit difference.
pub open spec fn spec_wrapping_sub(a: u64, b: u64) -> u64 {
    if a >= b {
        (a - b) as u64
    } else {
        ((0xffffffffffffffff - b) + a + 1) as u64
    }
}

/// Rotation left by six bits.
pub open spec fn spec_rotl6(x: u64) -> u64 {
    (x << 6u64) | (x >> 58u64)
}

/// Rotation right by six bits.
pub open spec fn spec_rotr6(x: u64) -> u64 {
    (x >> 6u64) | (x << 58u64)
}

/// The wire pattern for the raw pattern `raw` of a double plus one.
pub open spec fn spec_varbit_from_raw(raw: u64) -> u64 {
    spec_rotl6(spec_wrapping_sub(raw, DOUBLE_ONE_BITS))
}

/// The raw pattern of a double plus one, from its wire pattern.
pub open spec fn spec_varbit_to_raw(bits: u64) -> u64 {
    spec_wrapping_add(spec_rotr6(bits), DOUBLE_ONE_BITS)
}

/// Bytes of the variable-length encoding of the wire pattern `bits`, highest
/// seven-bit group first, with `groups` continuation bytes still allowed.
pub open spec fn spec_varbit_enc_rec(bits: u64, groups: nat) -> Seq<u8>
    decreases groups,
{
    if groups == 0 {
        seq![(bits >> 56u64) as u8]
    } else if bits << 7u64 == 0 {
        seq![(bits >> 57u64) as u8]
    } else {
        seq![((bits >> 57u64) as u8) | 0x80] + spec_varbit_enc_rec(bits << 7u64, (groups - 1) as nat)
    }
}

/// The full encoding of the wire pattern `bits`: at most eight continuation
/// bytes, nine bytes in all.
pub open spec fn spec_varbit_bytes(bits: u64) -> Seq<u8> {
    spec_varbit_enc_rec(bits, 8)
}

/// Decoding of a variable-length double token from `s` starting at `i`, with
/// `groups` continuation bytes still allowed and `acc` holding the groups
/// read so far.  Yields the wire pattern and the index just past the token,
/// or `None` when the input ends first.
pub open spec fn spec_varbit_dec_rec(s: Seq<u8>, i: int, groups: nat, acc: u64) -> Option<(u64, int)>
    decreases groups,
{
    if i < 0 || i >= s.len() {
        None
    } else {
        let b = s[i];
        let shift = (7 * groups + 1) as u64;
        if groups == 0 {
            Some((acc | b as u64, i + 1))
        } else if b < 0x80 {
            Some((acc | (b as u64) << shift, i + 1))
        } else {
            spec_varbit_dec_rec(s, i + 1, (groups - 1) as nat, acc | ((b & 0x7f) as u64) << shift)
        }
    }
}

/// Decoding of a variable-length double token from `s` starting at `i`.
pub open spec fn spec_varbit_dec(s: Seq<u8>, i: int) -> Option<(u64, int)> {
    spec_varbit_dec_rec(s, i, 8, 0)
}

fn var_bits_to_raw(bits: u64) -> (r: u64)
    ensures
        r == spec_varbit_to_raw(bits),
{
    let rot: u64 = (bits >> 6u64) | (bits << 58u64);
    if rot <= 0xffffffffffffffff - DOUBLE_ONE_BITS {
        rot + DOUBLE_ONE_BITS
    } else {
        rot - (0xffffffffffffffff - DOUBLE_ONE_BITS) - 1
    }
}

fn raw_to_var_bits(raw: u64) -> (r: u64)
    ensures
        r == spec_varbit_from_raw(raw),
{
    let diff: u64 = if raw >= DOUBLE_ONE_BITS {
        raw - DOUBLE_ONE_BITS
    } else {
        (0xffffffffffffffff - DOUBLE_ONE_BITS) + raw + 1
    };
    (diff << 6u64) | (diff >> 58u64)
}

/// Reads one variable-length double token and yields the raw IEEE-754 bit
/// pattern of the decoded value plus one.
pub fn decode_var_double_bits(input: &mut Input) -> (r: Result<u64, Error>)
    requires
        old(input).wf(),
    ensures
        final(input).wf(),
        final(input).bytes() == old(input).bytes(),
        match r {
            Ok(raw) => spec_varbit_dec(old(input).bytes(), old(input).pos())
                == Some((spec_varbit_from_raw(raw), final(input).pos())),
            Err(e) => {
                &&& spec_varbit_dec(old(input).bytes(), old(input).pos()) is None
                &&& e is IoError
                &&& final(input).pos() == old(input).bytes().len()
            },
        },
{
    let mut bits: u64 = 0;
    let mut shift: u64 = 57;
    loop
        invariant
            input.wf(),
            input.bytes() == old(input).bytes(),
            old(input).pos() <= input.pos() <= input.bytes().len(),
            shift % 7 == 1,
            1 <= shift <= 57,
            spec_varbit_dec_rec(input.bytes(), input.pos(), ((shift - 1) / 7) as nat, bits)
                == spec_varbit_dec(old(input).bytes(), old(input).pos()),
        decreases shift,
    {
        let ghost pre_pos = input.pos();
        let ghost g = ((shift - 1) / 7) as nat;
        proof {
            assert(7 * g + 1 == shift);
        }
        let next = input.read_byte()?;
        if shift == 1 {
            proof {
                assert(spec_varbit_dec_rec(input.bytes(), pre_pos, g, bits)
                    == Some(((bits | next as u64), pre_pos + 1)));
            }
            let out = var_bits_to_raw(bits | next as u64);
            proof {
                lemma_varbit_raw_bijection(bits | next as u64);
            }
            return Ok(out);
        }
        if next < 0x80 {
            proof {
                assert(spec_varbit_dec_rec(input.bytes(), pre_pos, g, bits)
                    == Some(((bits | (next as u64) << shift), pre_pos + 1)));
            }
            let out = var_bits_to_raw(bits | (next as u64) << shift);
            proof {
                lemma_varbit_raw_bijection(bits | (next as u64) << shift);
            }
            return Ok(out);
        }
        proof {
            assert(g >= 1);
            assert(spec_varbit_dec_rec(input.bytes(), pre_pos, g, bits)
                == spec_varbit_dec_rec(input.bytes(), pre_pos + 1, (g - 1) as nat,
                    bits | ((next & 0x7f) as u64) << shift));
            assert(((shift - 7 - 1) / 7) as nat == (g - 1) as nat);
        }
        bits = bits | ((next & 0x7f) as u64) << shift;
        shift = shift - 7;
    }
}

/// Law: turning a wire pattern into the raw pattern of a double plus one and
/// back is the identity, both ways round.
pub proof fn lemma_varbit_raw_bijection(x: u64)
    ensures
        spec_varbit_from_raw(spec_varbit_to_raw(x)) == x,
        spec_varbit_to_raw(spec_varbit_from_raw(x)) == x,
{
    assert(spec_varbit_from_raw(spec_varbit_to_raw(x)) == x) by (bit_vector);
    assert(spec_varbit_to_raw(spec_varbit_from_raw(x)) == x) by (bit_vector);
}

/// Writes the variable-length token for the raw IEEE-754 bit pattern `raw`
/// of a double plus one.
pub fn encode_var_double_bits(output: &mut Output, raw: u64) -> (r: Result<(), Error>)
    ensures
        r is Ok,
        final(output).bytes() == old(output).bytes()
            + spec_varbit_bytes(spec_varbit_from_raw(raw)),
{
    let mut bits: u64 = raw_to_var_bits(raw);
    let ghost wire = bits;
    let mut i: u64 = 0;
    while i < 8
        invariant
            i <= 8,
            old(output).bytes() + spec_varbit_bytes(wire)
                == output.bytes() + spec_varbit_enc_rec(bits, (8 - i) as nat),
            wire == spec_varbit_from_raw(raw),
        decreases 8 - i,
    {
        let next = (bits >> 57u64) as u8;
        let rest = bits << 7u64;
        if rest == 0 {
            proof {
                assert(spec_varbit_enc_rec(bits, (8 - i) as nat) == seq![(bits >> 57u64) as u8]);
            }
            output.write_byte(next)?;
            proof {
                assert(final(output).bytes()
                    =~= old(output).bytes() + spec_varbit_bytes(wire));
            }
            return Ok(());
        }
        proof {
            assert(spec_varbit_enc_rec(bits, (8 - i) as nat)
                == seq![((bits >> 57u64) as u8) | 0x80]
                    + spec_varbit_enc_rec(bits << 7u64, (8 - (i + 1)) as nat));
        }
        output.write_byte(next | 0x80)?;
        proof {
            assert(old(output).bytes() + spec_varbit_bytes(wire)
                =~= output.bytes() + spec_varbit_enc_rec(bits << 7u64, (8 - (i + 1)) as nat));
        }
        bits = rest;
        i = i + 1;
    }
    proof {
        assert(spec_varbit_enc_rec(bits, (8 - i) as nat) == seq![(bits >> 56u64) as u8]);
    }
    output.write_byte((bits >> 56u64) as u8)?;
    proof {
        assert(final(output).bytes() =~= old(output).bytes() + spec_varbit_bytes(wire));
    }
    Ok(())
}

/// Number of bytes of the variable-length token for the raw pattern `raw`.
pub fn var_double_encoded_length_bits(raw: u64) -> (r: i64)
    ensures
        r == spec_varbit_bytes(spec_varbit_from_raw(raw)).len(),
        1 <= r <= 9,
{
    let mut bits: u64 = raw_to_var_bits(raw);
    let ghost wire = bits;
    let mut n: i64 = 1;
    while n < 9 && (bits << 7u64) != 0
        invariant
            1 <= n <= 9,
            spec_varbit_bytes(wire).len()
                == n - 1 + spec_varbit_enc_rec(bits, (9 - n) as nat).len(),
            wire == spec_varbit_from_raw(raw),
        decreases 9 - n,
    {
        proof {
            assert(spec_varbit_enc_rec(bits, (9 - n) as nat)
                == seq![((bits >> 57u64) as u8) | 0x80]
                    + spec_varbit_enc_rec(bits << 7u64, (9 - (n + 1)) as nat));
        }
        bits = bits << 7u64;
        n = n + 1;
    }
    proof {
        assert(spec_varbit_enc_rec(bits, (9 - n) as nat).len() == 1);
    }
    n
}

proof fn lemma_varbit_round_trip_rec(s: Seq<u8>, i: int, bits: u64, groups: nat, acc: u64)
    requires
        0 <= i,
        groups <= 8,
        i + spec_varbit_enc_rec(bits, groups).len() <= s.len(),
        s.subrange(i, i + spec_varbit_enc_rec(bits, groups).len() as int)
            == spec_varbit_enc_rec(bits, groups),
    ensures
        spec_varbit_dec_rec(s, i, groups, acc)
            == Some(((acc | (bits >> (56 - 7 * groups) as u64)) as u64,
                i + spec_varbit_enc_rec(bits, groups).len())),
    decreases groups,
{
    let enc = spec_varbit_enc_rec(bits, groups);
    assert(s[i] == enc[0]);
    let sg: u64 = groups as u64;
    if groups == 0 {
        assert((((bits >> 56u64) as u8) as u64) == bits >> 56u64) by (bit_vector);
        assert(spec_varbit_dec_rec(s, i, groups, acc)
            == Some(((acc | (bits >> 56u64)), i + 1)));
    } else if bits << 7u64 == 0 {
        assert(bits << 7u64 == 0 && 1 <= sg <= 8 ==>
            ((bits >> 57u64) as u8) < 0x80
            && (((bits >> 57u64) as u8) as u64) << (7 * sg + 1) as u64
                == bits >> (56 - 7 * sg) as u64) by (bit_vector);
        assert(spec_varbit_dec_rec(s, i, groups, acc)
            == Some(((acc | (bits >> (56 - 7 * groups) as u64)), i + 1)));
    } else {
        let g1 = (groups - 1) as nat;
        assert(bits << 7u64 != 0 ==> (((bits >> 57u64) as u8) | 0x80) >= 0x80
            && (((((bits >> 57u64) as u8) | 0x80) & 0x7f) as u64) == bits >> 57u64)
            by (bit_vector);
        let b = ((bits >> 57u64) as u8) | 0x80;
        let shift = (7 * groups + 1) as u64;
        let acc2 = acc | ((b & 0x7f) as u64) << shift;
        let enc1 = spec_varbit_enc_rec(bits << 7u64, g1);
        assert(enc == seq![b] + enc1);
        assert(s.subrange(i + 1, i + 1 + enc1.len() as int) =~= enc1) by {
            assert forall|k: int| 0 <= k < enc1.len()
                implies s.subrange(i + 1, i + 1 + enc1.len() as int)[k] == enc1[k] by {
                assert(s.subrange(i + 1, i + 1 + enc1.len() as int)[k]
                    == s.subrange(i, i + enc.len() as int)[k + 1]);
            }
        }
        lemma_varbit_round_trip_rec(s, i + 1, bits << 7u64, g1, acc2);
        assert(1 <= sg <= 8 ==>
            ((acc | ((bits >> 57u64) << (7 * sg + 1) as u64))
                | ((bits << 7u64) >> (56 - 7 * (sg - 1)) as u64))
            == acc | (bits >> (56 - 7 * sg) as u64)) by (bit_vector);
        assert(spec_varbit_dec_rec(s, i, groups, acc)
            == spec_varbit_dec_rec(s, i + 1, g1, acc2));
    }
}

/// Law: decoding the variable-length double token written for a raw pattern
/// recovers exactly that pattern and stops at the byte just past the token.
pub proof fn lemma_var_double_bits_round_trip(s: Seq<u8>, i: int, raw: u64)
    requires
        0 <= i,
        i + spec_varbit_bytes(spec_varbit_from_raw(raw)).len() <= s.len(),
        s.subrange(i, i + spec_varbit_bytes(spec_varbit_from_raw(raw)).len() as int)
            == spec_varbit_bytes(spec_varbit_from_raw(raw)),
    ensures
        spec_varbit_dec(s, i) == Some((spec_varbit_from_raw(raw),
            i + spec_varbit_bytes(spec_varbit_from_raw(raw)).len())),
        spec_varbit_to_raw(spec_varbit_from_raw(raw)) == raw,
{
    let wire = spec_varbit_from_raw(raw);
    lemma_varbit_round_trip_rec(s, i, wire, 8, 0);
    assert((0u64 | (wire >> 0u64)) == wire) by (bit_vector);
    lemma_varbit_raw_bijection(raw);
}

} // verus!
