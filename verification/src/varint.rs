//! Unsigned LEB128 variable-length integers.
//!
//! Responses on the wire are length-prefixed with an unsigned LEB128 varint;
//! requests are not. A varint is a little-endian base-128 encoding: every
//! byte carries seven value bits, and its high bit says whether another byte
//! follows. Decoding accepts at most [`MAX_VARINT_LEN`] bytes and only
//! values that fit in 64 bits, so a hostile peer cannot make the decoder
//! consume unbounded input.

use vstd::prelude::*;

verus! {

use vstd::arithmetic::div_mod::{lemma_div_decreases, lemma_fundamental_div_mod};
use vstd::arithmetic::mul::lemma_mul_inequality;
use vstd::arithmetic::power::pow;

use crate::error::CodecError;

/// The longest accepted varint encoding: ten bytes suffice for any `u64`.
pub const MAX_VARINT_LEN: usize = 10;

/// Outcome of decoding a varint from a byte sequence.
pub enum VarintDec {
    /// A complete varint of `len` bytes denoting `value`.
    Value { value: nat, len: nat },
    /// The bytes ran out while a continuation bit was set.
    Truncated,
    /// The value does not fit in 64 bits, or the encoding runs past
    /// [`MAX_VARINT_LEN`] bytes.
    Overflow,
}

/// The canonical LEB128 encoding of `v`.
pub open spec fn varint_enc(v: nat) -> Seq<u8>
    decreases v,
{
    if v < 128 {
        seq![v as u8]
    } else {
        seq![(v % 128 + 128) as u8] + varint_enc(v / 128)
    }
}

/// Decoding with an explicit bound on how many bytes may be consumed.
pub open spec fn varint_dec_r(s: Seq<u8>, fuel: nat) -> VarintDec
    decreases fuel,
{
    if fuel == 0 {
        VarintDec::Overflow
    } else if s.len() == 0 {
        VarintDec::Truncated
    } else if s[0] < 128 {
        VarintDec::Value { value: s[0] as nat, len: 1 }
    } else {
        match varint_dec_r(s.subrange(1, s.len() as int), (fuel - 1) as nat) {
            VarintDec::Value { value, len } => {
                if (s[0] - 128) as nat + 128 * value > u64::MAX as nat {
                    VarintDec::Overflow
                } else {
                    VarintDec::Value { value: (s[0] - 128) as nat + 128 * value, len: len + 1 }
                }
            },
            e => e,
        }
    }
}

/// What decoding a varint from the front of `s` yields.
pub open spec fn varint_dec(s: Seq<u8>) -> VarintDec {
    varint_dec_r(s, MAX_VARINT_LEN as nat)
}

/// A decoded varint consumes at least one byte, at most the whole input,
/// and at most `fuel` bytes; its value fits in 64 bits.
pub proof fn lemma_varint_dec_len(s: Seq<u8>, fuel: nat)
    ensures
        varint_dec_r(s, fuel) matches VarintDec::Value { value, len } ==> 1 <= len && len
            <= s.len() && len <= fuel && value <= u64::MAX as nat,
    decreases fuel,
{
    if fuel > 0 && s.len() > 0 && s[0] >= 128 {
        lemma_varint_dec_len(s.subrange(1, s.len() as int), (fuel - 1) as nat);
    }
}

/// The encoding of a value below `pow(128, k)` takes at most `k` bytes.
proof fn lemma_varint_enc_len_bounded(v: nat, k: nat)
    requires
        1 <= k,
        v < pow(128, k),
    ensures
        varint_enc(v).len() <= k,
    decreases k,
{
    reveal(pow);
    if v < 128 {
        // one byte
    } else {
        assert(pow(128, 1) == 128 * pow(128, 0));
        assert(k >= 2);
        let p = pow(128, (k - 1) as nat);
        assert(pow(128, k) == 128 * p);
        assert(v as int / 128 < p) by {
            if v as int / 128 >= p {
                lemma_mul_inequality(p, v as int / 128, 128);
                lemma_fundamental_div_mod(v as int, 128);
            }
        }
        lemma_varint_enc_len_bounded(v / 128, (k - 1) as nat);
    }
}

/// Any `u64` value encodes to between one and [`MAX_VARINT_LEN`] bytes.
pub proof fn lemma_varint_enc_len(v: nat)
    requires
        v <= u64::MAX as nat,
    ensures
        1 <= varint_enc(v).len() <= MAX_VARINT_LEN,
{
    reveal_with_fuel(pow, 11);
    assert(pow(128, 10) == 1180591620717411303424);
    lemma_varint_enc_len_bounded(v, 10);
}

/// Round trip at the spec level, generalized over the remaining fuel:
/// decoding the encoding of `v`, followed by arbitrary bytes, yields `v`
/// and consumes exactly the encoding.
proof fn lemma_varint_round_trip_r(v: nat, rest: Seq<u8>, fuel: nat)
    requires
        v <= u64::MAX as nat,
        varint_enc(v).len() <= fuel,
    ensures
        varint_dec_r(varint_enc(v) + rest, fuel) == (VarintDec::Value {
            value: v,
            len: varint_enc(v).len(),
        }),
    decreases v,
{
    let s = varint_enc(v) + rest;
    if v < 128 {
        assert(s[0] == v as u8);
    } else {
        assert(v % 128 < 128) by {
            lemma_fundamental_div_mod(v as int, 128);
        }
        assert(s[0] == (v % 128 + 128) as u8);
        assert(s[0] >= 128);
        let tail = varint_enc(v / 128) + rest;
        assert(s.subrange(1, s.len() as int) =~= tail);
        assert(v / 128 < v) by {
            lemma_div_decreases(v as int, 128);
        }
        lemma_varint_round_trip_r(v / 128, rest, (fuel - 1) as nat);
        assert((s[0] - 128) as nat + 128 * (v / 128) == v) by {
            lemma_fundamental_div_mod(v as int, 128);
        }
    }
}

/// Round trip: a varint decodes back to the value it was encoded from,
/// regardless of what follows it in the input.
pub proof fn lemma_varint_round_trip(v: u64, rest: Seq<u8>)
    ensures
        varint_dec(varint_enc(v as nat) + rest) == (VarintDec::Value {
            value: v as nat,
            len: varint_enc(v as nat).len(),
        }),
{
    lemma_varint_enc_len(v as nat);
    lemma_varint_round_trip_r(v as nat, rest, MAX_VARINT_LEN as nat);
}

/// Appends the LEB128 encoding of `v` to `out`.
pub fn encode_varint(v: u64, out: &mut Vec<u8>)
    ensures
        final(out)@ == old(out)@ + varint_enc(v as nat),
    decreases v,
{
    if v < 128 {
        out.push(v as u8);
        assert(out@ =~= old(out)@ + varint_enc(v as nat));
    } else {
        out.push((v % 128 + 128) as u8);
        proof {
            lemma_div_decreases(v as int, 128);
        }
        encode_varint(v / 128, out);
        assert(out@ =~= old(out)@ + varint_enc(v as nat));
    }
}

/// Recursive decoding step, mirroring [`varint_dec_r`].
fn decode_varint_r(buf: &Vec<u8>, pos: usize, fuel: usize) -> (r: Result<(u64, usize), CodecError>)
    requires
        pos <= buf@.len(),
    ensures
        ({
            let d = varint_dec_r(buf@.subrange(pos as int, buf@.len() as int), fuel as nat);
            match r {
                Ok((v, n)) => d == (VarintDec::Value { value: v as nat, len: n as nat }) && pos + n
                    <= buf@.len(),
                Err(CodecError::Truncated) => d is Truncated,
                Err(CodecError::LengthOverflow) => d is Overflow,
                Err(_) => false,
            }
        }),
    decreases fuel,
{
    let ghost s = buf@.subrange(pos as int, buf@.len() as int);
    if fuel == 0 {
        return Err(CodecError::LengthOverflow);
    }
    if pos == buf.len() {
        return Err(CodecError::Truncated);
    }
    let b = buf[pos];
    assert(s[0] == b);
    if b < 128 {
        return Ok((b as u64, 1));
    }
    proof {
        assert(s.subrange(1, s.len() as int) =~= buf@.subrange(
            pos as int + 1,
            buf@.len() as int,
        ));
    }
    match decode_varint_r(buf, pos + 1, fuel - 1) {
        Err(e) => Err(e),
        Ok((value, len)) => {
            let low = (b - 128) as u64;
            if value > (u64::MAX - low) / 128 {
                proof {
                    // value > (MAX - low) / 128 forces low + 128 * value > MAX.
                    lemma_fundamental_div_mod(u64::MAX as int - low as int, 128);
                    lemma_mul_inequality(
                        (u64::MAX as int - low as int) / 128 + 1,
                        value as int,
                        128,
                    );
                }
                Err(CodecError::LengthOverflow)
            } else {
                proof {
                    // value <= (MAX - low) / 128 keeps low + 128 * value <= MAX.
                    lemma_fundamental_div_mod(u64::MAX as int - low as int, 128);
                    lemma_mul_inequality(
                        value as int,
                        (u64::MAX as int - low as int) / 128,
                        128,
                    );
                }
                Ok((low + 128 * value, len + 1))
            }
        },
    }
}

/// Decodes one varint from `buf` starting at `pos`.
///
/// Returns the value and the number of bytes consumed. The result is exactly
/// what [`varint_dec`] says of the bytes from `pos` on.
pub fn decode_varint(buf: &Vec<u8>, pos: usize) -> (r: Result<(u64, usize), CodecError>)
    requires
        pos <= buf@.len(),
    ensures
        ({
            let d = varint_dec(buf@.subrange(pos as int, buf@.len() as int));
            match r {
                Ok((v, n)) => d == (VarintDec::Value { value: v as nat, len: n as nat }) && pos + n
                    <= buf@.len(),
                Err(CodecError::Truncated) => d is Truncated,
                Err(CodecError::LengthOverflow) => d is Overflow,
                Err(_) => false,
            }
        }),
{
    decode_varint_r(buf, pos, MAX_VARINT_LEN)
}

} // verus!
