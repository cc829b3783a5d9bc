//! Bit-level field-encoding primitives.

use crate::reader::{align8, spec_read_bits, spec_read_u8, Reader};
use vstd::arithmetic::div_mod::lemma_fundamental_div_mod_converse;
use vstd::arithmetic::power2::{lemma2_to64, pow2};
use vstd::bits::{lemma_u32_low_bits_mask_is_mod, lemma_u32_shl_is_mul, low_bits_mask};
use vstd::prelude::*;

verus! {

/// Why a field decode failed. Both conditions are recovered by the data
/// parser's resync scan; neither aborts a parse.
#[derive(Debug, Clone, Copy, PartialEq, Eq, Structural)]
pub enum DecodeError {
    /// A read ran past the end of the buffer.
    EndOfData,
    /// The bytes read fail a plausibility check for their encoding.
    Malformed,
}

/// Zig-zag decoding maps the unsigned sequence 0, 1, 2, 3, 4, ... onto the
/// signed sequence 0, -1, 1, -2, 2, ...: even inputs are halved, odd inputs
/// map to the negative of the rounded-up half.
pub open spec fn spec_zig_zag_decode(value: u32) -> int {
    if value % 2 == 0 {
        (value / 2) as int
    } else {
        -((value / 2) as int) - 1
    }
}

/// The inverse mapping: non-negative x to 2x, negative x to -2x - 1.
pub open spec fn spec_zig_zag_encode(x: i32) -> int {
    if x >= 0 {
        2 * (x as int)
    } else {
        -2 * (x as int) - 1
    }
}

/// Decodes a zig-zag encoded signed value.
pub fn zig_zag_decode(value: u32) -> (r: i32)
    ensures
        r as int == spec_zig_zag_decode(value),
{
    let half = (value >> 1u32) as i32;
    let low_bit = value & 1u32;
    proof {
        assert(value & 1u32 <= 1) by (bit_vector);
    }
    let mask = low_bit as i32;
    let neg = -mask;
    let r = half ^ neg;
    proof {
        assert(r as int == spec_zig_zag_decode(value)) by (bit_vector)
            requires
                half == (value >> 1u32) as i32,
                mask == (value & 1u32) as i32 && 0i32 <= mask <= 1i32,
                neg == 0i32 - mask,
                r == half ^ neg,
        ;
    }
    r
}

/// Zig-zag encodes a signed value; the exact inverse of [`zig_zag_decode`].
pub fn zig_zag_encode(x: i32) -> (r: u32)
    ensures
        r as int == spec_zig_zag_encode(x),
{
    let doubled = #[verifier::truncate] ((x << 1u32) as u32);
    let sign = #[verifier::truncate] ((x >> 31u32) as u32);
    let r = doubled ^ sign;
    proof {
        assert(r as int == spec_zig_zag_encode(x)) by (bit_vector)
            requires
                doubled == (x << 1u32) as u32,
                sign == (x >> 31u32) as u32,
                r == doubled ^ sign,
        ;
    }
    r
}

/// The low `bits` bits of `from`, reinterpreted as a two's-complement value
/// of width `bits`: values at or above 2^(bits-1) wrap around to negatives.
pub open spec fn spec_sign_extend(bits: nat, from: u32) -> int
    recommends
        1 <= bits <= 32,
{
    let low = (from as nat) % pow2(bits);
    if low >= pow2((bits - 1) as nat) {
        low - pow2(bits)
    } else {
        low as int
    }
}

/// Sign-extends the low `BITS` bits of `from` to a full 32-bit signed value.
pub fn sign_extend<const BITS: u32>(from: u32) -> (r: i32)
    requires
        1 <= BITS <= 32,
    ensures
        r as int == spec_sign_extend(BITS as nat, from),
{
    let bits: u32 = BITS;
    let unused_bits = 32 - bits;
    let widened = #[verifier::truncate] ((from << unused_bits) as i32);
    let r = widened >> unused_bits;
    proof {
        lemma2_to64();
        if bits == 32 {
            assert(from as nat % pow2(32) == from as nat) by {
                assert(from < 0x1_0000_0000u64) by (bit_vector);
            }
            assert(((from << 0u32) as i32) >> 0u32 == (if from >= 0x8000_0000u32 {
                ((from - 0x1_0000_0000) as i32)
            } else {
                (from as i32)
            })) by (bit_vector);
        } else {
            let p = 1u32 << bits;
            let h = 1u32 << (bits - 1);
            lemma_u32_shl_is_mul(1u32, bits);
            lemma_u32_shl_is_mul(1u32, (bits - 1) as u32);
            assert(p == pow2(bits as nat) && h == pow2((bits - 1) as nat));
            lemma_u32_low_bits_mask_is_mod(from, bits as nat);
            let lowu = from & ((p - 1) as u32);
            assert(low_bits_mask(bits as nat) == (p - 1) as nat);
            assert(lowu == from % p);
            assert(r as int == (if lowu >= h {
                lowu - p
            } else {
                lowu as int
            })) by (bit_vector)
                requires
                    1u32 <= bits < 32u32,
                    p == 1u32 << bits,
                    h == 1u32 << ((bits - 1) as u32),
                    lowu == from & ((p - 1) as u32),
                    widened == (from << ((32 - bits) as u32)) as i32,
                    r == widened >> ((32 - bits) as u32),
            ;
            assert(from as nat % pow2(bits as nat) == (from % p) as nat);
        }
    }
    r
}

/// One step of unsigned variable-byte decoding, starting from the
/// accumulator `acc` with the next 7-bit group going to bit `offset`:
/// the low 7 bits of each byte are data, the high bit a continuation flag,
/// groups stored least significant first. A sequence that would carry data
/// past bit 31 is malformed.
pub open spec fn spec_variable_at(data: Seq<u8>, p: nat, offset: u32, acc: u32) -> (Result<
    u32,
    DecodeError,
>, nat)
    decreases data.len() * 8 - p,
{
    let (b, p1) = spec_read_u8(data, p);
    match b {
        None => (Err(DecodeError::EndOfData), p1),
        Some(byte) => {
            if offset >= 32 {
                (Err(DecodeError::Malformed), p1)
            } else {
                let acc2 = acc | (((byte & 0x7f) as u32) << offset);
                if byte & 0x80 == 0 {
                    (Ok(acc2), p1)
                } else {
                    spec_variable_at(data, p1, (offset + 7) as u32, acc2)
                }
            }
        },
    }
}

/// Unsigned variable-byte decoding from bit offset `p` (after re-aligning
/// to a byte boundary).
pub open spec fn spec_variable(data: Seq<u8>, p: nat) -> (Result<u32, DecodeError>, nat) {
    spec_variable_at(data, p, 0, 0)
}

/// Signed variable-byte decoding: unsigned variable-byte, then zig-zag.
pub open spec fn spec_variable_signed(data: Seq<u8>, p: nat) -> (Result<i32, DecodeError>, nat) {
    let (r, p1) = spec_variable(data, p);
    match r {
        Ok(v) => (Ok(spec_zig_zag_decode(v) as i32), p1),
        Err(e) => (Err(e), p1),
    }
}

/// Reads an unsigned variable-byte integer.
pub fn variable(data: &mut Reader) -> (r: Result<u32, DecodeError>)
    requires
        old(data).wf(),
    ensures
        final(data).wf(),
        final(data).bytes() == old(data).bytes(),
        (r, final(data).bit_pos()) == spec_variable(old(data).bytes(), old(data).bit_pos()),
{
    let mut uvar: u32 = 0;
    let mut offset: u32 = 0;
    loop
        invariant
            data.wf(),
            data.bytes() == old(data).bytes(),
            offset % 7 == 0 && offset <= 35,
            spec_variable(old(data).bytes(), old(data).bit_pos()) == spec_variable_at(
                data.bytes(),
                data.bit_pos(),
                offset,
                uvar,
            ),
        decreases data.total_bits() + 8 - data.bit_pos(),
    {
        proof {
            data.lemma_wf_bounds();
        }
        let byte = match data.read_u8() {
            None => {
                return Err(DecodeError::EndOfData);
            },
            Some(b) => b,
        };
        if offset >= 32 {
            return Err(DecodeError::Malformed);
        }
        uvar = uvar | (((byte & 0x7f) as u32) << offset);
        if byte & 0x80 == 0 {
            return Ok(uvar);
        }
        offset = offset + 7;
    }
}

/// Reads a signed variable-byte integer (unsigned variable-byte, zig-zag
/// decoded).
pub fn variable_signed(data: &mut Reader) -> (r: Result<i32, DecodeError>)
    requires
        old(data).wf(),
    ensures
        final(data).wf(),
        final(data).bytes() == old(data).bytes(),
        (r, final(data).bit_pos()) == spec_variable_signed(old(data).bytes(), old(data).bit_pos()),
{
    match variable(data) {
        Ok(v) => Ok(zig_zag_decode(v)),
        Err(e) => Err(e),
    }
}

/// The value stored by the negative-14-bit encoding for the raw unsigned
/// variable-byte word `v`: the low 14 bits as a two's-complement value,
/// negated.
pub open spec fn spec_neg14_of(v: u32) -> int {
    -spec_sign_extend(14, v)
}

/// Negative-14-bit decoding: unsigned variable-byte, then the low 14 bits
/// reinterpreted and negated.
pub open spec fn spec_negative_14_bit(data: Seq<u8>, p: nat) -> (Result<i32, DecodeError>, nat) {
    let (r, p1) = spec_variable(data, p);
    match r {
        Ok(v) => (Ok(spec_neg14_of(v) as i32), p1),
        Err(e) => (Err(e), p1),
    }
}

/// Reads a negative-14-bit encoded value.
pub fn negative_14_bit(data: &mut Reader) -> (r: Result<i32, DecodeError>)
    requires
        old(data).wf(),
    ensures
        final(data).wf(),
        final(data).bytes() == old(data).bytes(),
        (r, final(data).bit_pos()) == spec_negative_14_bit(old(data).bytes(), old(data).bit_pos()),
{
    let v = match variable(data) {
        Ok(v) => v,
        Err(e) => {
            return Err(e);
        },
    };
    let extended = sign_extend::<14>(v);
    proof {
        lemma2_to64();
    }
    Ok(-extended)
}

/// The unsigned 32-bit word with the same two's-complement bit pattern.
pub open spec fn spec_as_unsigned(v: i32) -> u32 {
    if v >= 0 {
        v as u32
    } else {
        (v + 0x1_0000_0000) as u32
    }
}

/// The signed value with the same bit pattern as the 32-bit word `v`.
pub open spec fn spec_as_signed(v: u32) -> i32 {
    if v <= i32::MAX {
        v as i32
    } else {
        (v - 0x1_0000_0000) as i32
    }
}

/// Reinterprets a signed value as its 32-bit two's-complement word.
pub fn as_unsigned(v: i32) -> (r: u32)
    ensures
        r == spec_as_unsigned(v),
{
    let r = #[verifier::truncate] (v as u32);
    proof {
        assert(r == spec_as_unsigned(v)) by (bit_vector)
            requires
                r == v as u32,
        ;
    }
    r
}

/// Reinterprets a 32-bit word as a signed value.
pub fn as_signed(v: u32) -> (r: i32)
    ensures
        r == spec_as_signed(v),
{
    let r = #[verifier::truncate] (v as i32);
    proof {
        assert(r == spec_as_signed(v)) by (bit_vector)
            requires
                r == v as i32,
        ;
    }
    r
}

/// One field of a tagged group: `width` bits, sign-extended; zero-width
/// fields are 0 and consume nothing.
pub open spec fn spec_tagged_field(data: Seq<u8>, p: nat, width: nat) -> (Result<
    i32,
    DecodeError,
>, nat) {
    if width == 0 {
        (Ok(0i32), p)
    } else {
        let (b, p1) = spec_read_bits(data, p, width);
        match b {
            Some(v) => (Ok(spec_sign_extend(width, v) as i32), p1),
            None => (Err(DecodeError::EndOfData), p1),
        }
    }
}

/// The fields of a tagged-variable group after its tag byte: field `i` is a
/// signed variable-byte value when bit `i` of the tag is set, else 0.
pub open spec fn spec_tagged_var_fields(
    data: Seq<u8>,
    p: nat,
    tag: u8,
    i: nat,
    count: nat,
    acc: Seq<i32>,
) -> (Result<Seq<i32>, DecodeError>, nat)
    decreases count - i,
{
    if i >= count {
        (Ok(acc), p)
    } else if (tag >> (i as u8)) & 1 == 1 {
        let (r, p2) = spec_variable_signed(data, p);
        match r {
            Ok(v) => spec_tagged_var_fields(data, p2, tag, i + 1, count, acc.push(v)),
            Err(e) => (Err(e), p2),
        }
    } else {
        spec_tagged_var_fields(data, p, tag, i + 1, count, acc.push(0i32))
    }
}

/// A tagged-variable group of `count` fields: one tag byte with one
/// presence bit per field; tag bits beyond the group are a plausibility
/// failure.
pub open spec fn spec_tagged_variable(data: Seq<u8>, p: nat, count: nat) -> (Result<
    Seq<i32>,
    DecodeError,
>, nat) {
    let (t, p1) = spec_read_u8(data, p);
    match t {
        None => (Err(DecodeError::EndOfData), p1),
        Some(tag) => {
            if count < 8 && (tag >> (count as u8)) != 0 {
                (Err(DecodeError::Malformed), p1)
            } else {
                spec_tagged_var_fields(data, p1, tag, 0, count, Seq::empty())
            }
        },
    }
}

/// Width of one tagged-32 field for a 2-bit width-class code.
pub open spec fn spec_t32_width(code: u8) -> nat {
    if code == 0 {
        0
    } else if code == 1 {
        8
    } else if code == 2 {
        16
    } else {
        32
    }
}

/// Width of one tagged-16 field for a 2-bit width-class code.
pub open spec fn spec_t16_width(code: u8) -> nat {
    if code == 0 {
        0
    } else if code == 1 {
        4
    } else if code == 2 {
        8
    } else {
        16
    }
}

/// A tagged-32 group: one tag byte holding three 2-bit width-class codes
/// (field 0 in the low bits), then each field at its class width.
pub open spec fn spec_tagged_32(data: Seq<u8>, p: nat) -> (Result<Seq<i32>, DecodeError>, nat) {
    let (t, p1) = spec_read_u8(data, p);
    match t {
        None => (Err(DecodeError::EndOfData), p1),
        Some(tag) => {
            let (r0, p2) = spec_tagged_field(data, p1, spec_t32_width(tag & 3));
            match r0 {
                Err(e) => (Err(e), p2),
                Ok(v0) => {
                    let (r1, p3) = spec_tagged_field(data, p2, spec_t32_width((tag >> 2u8) & 3));
                    match r1 {
                        Err(e) => (Err(e), p3),
                        Ok(v1) => {
                            let (r2, p4) = spec_tagged_field(
                                data,
                                p3,
                                spec_t32_width((tag >> 4u8) & 3),
                            );
                            match r2 {
                                Err(e) => (Err(e), p4),
                                Ok(v2) => (Ok(seq![v0, v1, v2]), p4),
                            }
                        },
                    }
                },
            }
        },
    }
}

/// A tagged-16 group: one tag byte holding four 2-bit width-class codes
/// (field 0 in the low bits), each field at its class width; the group ends
/// re-aligned to a byte boundary.
pub open spec fn spec_tagged_16(data: Seq<u8>, p: nat) -> (Result<Seq<i32>, DecodeError>, nat) {
    let (t, p1) = spec_read_u8(data, p);
    match t {
        None => (Err(DecodeError::EndOfData), p1),
        Some(tag) => {
            let (r0, p2) = spec_tagged_field(data, p1, spec_t16_width(tag & 3));
            match r0 {
                Err(e) => (Err(e), p2),
                Ok(v0) => {
                    let (r1, p3) = spec_tagged_field(data, p2, spec_t16_width((tag >> 2u8) & 3));
                    match r1 {
                        Err(e) => (Err(e), p3),
                        Ok(v1) => {
                            let (r2, p4) = spec_tagged_field(
                                data,
                                p3,
                                spec_t16_width((tag >> 4u8) & 3),
                            );
                            match r2 {
                                Err(e) => (Err(e), p4),
                                Ok(v2) => {
                                    let (r3, p5) = spec_tagged_field(
                                        data,
                                        p4,
                                        spec_t16_width((tag >> 6u8) & 3),
                                    );
                                    match r3 {
                                        Err(e) => (Err(e), p5),
                                        Ok(v3) => (
                                            Ok(seq![v0, v1, v2, v3]),
                                            crate::reader::align8(p5),
                                        ),
                                    }
                                },
                            }
                        },
                    }
                },
            }
        },
    }
}

/// Reads one tagged-group field of the given width and sign-extends it.
fn read_tagged_field(data: &mut Reader, width: u32) -> (r: Result<i32, DecodeError>)
    requires
        old(data).wf(),
        width == 0 || width == 4 || width == 8 || width == 16 || width == 32,
    ensures
        final(data).wf(),
        final(data).bytes() == old(data).bytes(),
        (r, final(data).bit_pos()) == spec_tagged_field(
            old(data).bytes(),
            old(data).bit_pos(),
            width as nat,
        ),
{
    if width == 0 {
        return Ok(0);
    }
    match data.read_bits(width) {
        None => Err(DecodeError::EndOfData),
        Some(v) => Ok(
            match width {
                4u32 => sign_extend::<4>(v),
                8u32 => sign_extend::<8>(v),
                16u32 => sign_extend::<16>(v),
                _ => sign_extend::<32>(v),
            },
        ),
    }
}

/// Reads a tagged-variable group of `extra + 1` fields.
pub fn tagged_variable(data: &mut Reader, extra: usize) -> (r: Result<Vec<i32>, DecodeError>)
    requires
        old(data).wf(),
        extra < 8,
    ensures
        final(data).wf(),
        final(data).bytes() == old(data).bytes(),
        ({
            let (sr, sp) = spec_tagged_variable(
                old(data).bytes(),
                old(data).bit_pos(),
                (extra + 1) as nat,
            );
            &&& final(data).bit_pos() == sp
            &&& match (r, sr) {
                (Ok(v), Ok(s)) => v@ == s && v@.len() == extra + 1,
                (Err(e), Err(se)) => e == se,
                _ => false,
            }
        }),
{
    let count = extra + 1;
    let tag = match data.read_u8() {
        None => {
            return Err(DecodeError::EndOfData);
        },
        Some(t) => t,
    };
    if count < 8 && (tag >> (count as u8)) != 0 {
        return Err(DecodeError::Malformed);
    }
    let mut values: Vec<i32> = Vec::new();
    let mut i: usize = 0;
    while i < count
        invariant
            data.wf(),
            data.bytes() == old(data).bytes(),
            i <= count == extra + 1 <= 8,
            values@.len() == i,
            spec_tagged_variable(
                old(data).bytes(),
                old(data).bit_pos(),
                (extra + 1) as nat,
            ) == spec_tagged_var_fields(
                data.bytes(),
                data.bit_pos(),
                tag,
                i as nat,
                count as nat,
                values@,
            ),
        decreases count - i,
    {
        if (tag >> (i as u8)) & 1 == 1 {
            match variable_signed(data) {
                Ok(v) => values.push(v),
                Err(e) => {
                    return Err(e);
                },
            }
        } else {
            values.push(0);
        }
        i = i + 1;
    }
    Ok(values)
}

/// Reads a tagged-32 group of three fields.
pub fn tagged_32(data: &mut Reader) -> (r: Result<Vec<i32>, DecodeError>)
    requires
        old(data).wf(),
    ensures
        final(data).wf(),
        final(data).bytes() == old(data).bytes(),
        ({
            let (sr, sp) = spec_tagged_32(old(data).bytes(), old(data).bit_pos());
            &&& final(data).bit_pos() == sp
            &&& match (r, sr) {
                (Ok(v), Ok(s)) => v@ == s,
                (Err(e), Err(se)) => e == se,
                _ => false,
            }
        }),
{
    let tag = match data.read_u8() {
        None => {
            return Err(DecodeError::EndOfData);
        },
        Some(t) => t,
    };
    let w0 = t32_width(tag & 3);
    let v0 = match read_tagged_field(data, w0) {
        Ok(v) => v,
        Err(e) => {
            return Err(e);
        },
    };
    let w1 = t32_width((tag >> 2u8) & 3);
    let v1 = match read_tagged_field(data, w1) {
        Ok(v) => v,
        Err(e) => {
            return Err(e);
        },
    };
    let w2 = t32_width((tag >> 4u8) & 3);
    let v2 = match read_tagged_field(data, w2) {
        Ok(v) => v,
        Err(e) => {
            return Err(e);
        },
    };
    let mut values: Vec<i32> = Vec::new();
    values.push(v0);
    values.push(v1);
    values.push(v2);
    proof {
        let (sr, sp) = spec_tagged_32(old(data).bytes(), old(data).bit_pos());
        assert(values@ =~= sr->Ok_0);
    }
    Ok(values)
}

/// Reads a tagged-16 group of four fields and re-aligns to a byte boundary.
pub fn tagged_16(data: &mut Reader) -> (r: Result<Vec<i32>, DecodeError>)
    requires
        old(data).wf(),
    ensures
        final(data).wf(),
        final(data).bytes() == old(data).bytes(),
        ({
            let (sr, sp) = spec_tagged_16(old(data).bytes(), old(data).bit_pos());
            &&& final(data).bit_pos() == sp
            &&& match (r, sr) {
                (Ok(v), Ok(s)) => v@ == s,
                (Err(e), Err(se)) => e == se,
                _ => false,
            }
        }),
{
    let tag = match data.read_u8() {
        None => {
            return Err(DecodeError::EndOfData);
        },
        Some(t) => t,
    };
    let w0 = t16_width(tag & 3);
    let v0 = match read_tagged_field(data, w0) {
        Ok(v) => v,
        Err(e) => {
            return Err(e);
        },
    };
    let w1 = t16_width((tag >> 2u8) & 3);
    let v1 = match read_tagged_field(data, w1) {
        Ok(v) => v,
        Err(e) => {
            return Err(e);
        },
    };
    let w2 = t16_width((tag >> 4u8) & 3);
    let v2 = match read_tagged_field(data, w2) {
        Ok(v) => v,
        Err(e) => {
            return Err(e);
        },
    };
    let w3 = t16_width((tag >> 6u8) & 3);
    let v3 = match read_tagged_field(data, w3) {
        Ok(v) => v,
        Err(e) => {
            return Err(e);
        },
    };
    data.byte_align();
    let mut values: Vec<i32> = Vec::new();
    values.push(v0);
    values.push(v1);
    values.push(v2);
    values.push(v3);
    proof {
        let (sr, sp) = spec_tagged_16(old(data).bytes(), old(data).bit_pos());
        assert(values@ =~= sr->Ok_0);
    }
    Ok(values)
}

/// Width of one tagged-32 field for a 2-bit width-class code.
fn t32_width(code: u8) -> (r: u32)
    ensures
        r as nat == spec_t32_width(code),
        r == 0 || r == 8 || r == 16 || r == 32,
{
    if code == 0 {
        0
    } else if code == 1 {
        8
    } else if code == 2 {
        16
    } else {
        32
    }
}

/// Width of one tagged-16 field for a 2-bit width-class code.
fn t16_width(code: u8) -> (r: u32)
    ensures
        r as nat == spec_t16_width(code),
        r == 0 || r == 4 || r == 8 || r == 16,
{
    if code == 0 {
        0
    } else if code == 1 {
        4
    } else if code == 2 {
        8
    } else {
        16
    }
}

/// The bit-level scheme used to store one raw delta or value in the stream.
#[derive(Debug, Clone, Copy, PartialEq, Eq, Structural)]
pub enum Encoding {
    /// Signed variable byte.
    VariableSigned,
    /// Unsigned variable byte.
    Variable,
    /// Unsigned variable byte, negated after decoding; fits in 14 bits.
    Negative14Bit,
    /// One tag byte with a presence bit per field, then signed variable
    /// bytes for the present fields.
    TaggedVariable,
    /// One tag byte with three 2-bit width classes (0, 8, 16 or 32 bits).
    Tagged32,
    /// One tag byte with four 2-bit width classes (0, 4, 8 or 16 bits).
    Tagged16,
    /// Nothing is written to the log; the value is 0.
    Null,
}

impl Encoding {
    /// Whether decoded words are read back as 32-bit two's-complement.
    pub open spec fn spec_is_signed(self) -> bool {
        match self {
            Encoding::VariableSigned => true,
            Encoding::Variable => false,
            Encoding::Negative14Bit => true,
            Encoding::TaggedVariable => true,
            Encoding::Tagged32 => true,
            Encoding::Tagged16 => true,
            Encoding::Null => false,
        }
    }

    /// How many field values one decode call may produce.
    pub open spec fn spec_max_chunk_size(self) -> nat {
        match self {
            Encoding::TaggedVariable => 8,
            Encoding::Tagged32 => 3,
            Encoding::Tagged16 => 4,
            _ => 1,
        }
    }

    /// Whether decoded words are read back as 32-bit two's-complement.
    pub fn is_signed(&self) -> (r: bool)
        ensures
            r == self.spec_is_signed(),
    {
        match self {
            Encoding::VariableSigned
            | Encoding::Negative14Bit
            | Encoding::TaggedVariable
            | Encoding::Tagged32
            | Encoding::Tagged16 => true,
            Encoding::Variable | Encoding::Null => false,
        }
    }

    /// How many field values one decode call may produce.
    pub fn max_chunk_size(&self) -> (r: usize)
        ensures
            r as nat == self.spec_max_chunk_size(),
            1 <= r <= 8,
    {
        match self {
            Encoding::TaggedVariable => 8,
            Encoding::Tagged32 => 3,
            Encoding::Tagged16 => 4,
            Encoding::VariableSigned
            | Encoding::Variable
            | Encoding::Negative14Bit
            | Encoding::Null => 1,
        }
    }

    /// The words appended by one decode call for this encoding: `extra + 1`
    /// words (tagged groups may consume bits for their whole group anyway),
    /// each the 32-bit two's-complement pattern of the decoded field value.
    pub open spec fn spec_decode(self, data: Seq<u8>, p: nat, extra: nat) -> (Result<
        Seq<u32>,
        DecodeError,
    >, nat)
        recommends
            extra < self.spec_max_chunk_size(),
    {
        match self {
            Encoding::VariableSigned => {
                let (r, p1) = spec_variable_signed(data, p);
                match r {
                    Ok(v) => (Ok(seq![spec_as_unsigned(v)]), p1),
                    Err(e) => (Err(e), p1),
                }
            },
            Encoding::Variable => {
                let (r, p1) = spec_variable(data, p);
                match r {
                    Ok(v) => (Ok(seq![v]), p1),
                    Err(e) => (Err(e), p1),
                }
            },
            Encoding::Negative14Bit => {
                let (r, p1) = spec_negative_14_bit(data, p);
                match r {
                    Ok(v) => (Ok(seq![spec_as_unsigned(v)]), p1),
                    Err(e) => (Err(e), p1),
                }
            },
            Encoding::TaggedVariable => {
                let (r, p1) = spec_tagged_variable(data, p, extra + 1);
                match r {
                    Ok(vs) => (Ok(vs.map_values(|v: i32| spec_as_unsigned(v))), p1),
                    Err(e) => (Err(e), p1),
                }
            },
            Encoding::Tagged32 => {
                let (r, p1) = spec_tagged_32(data, p);
                match r {
                    Ok(vs) => (
                        Ok(vs.subrange(0, extra as int + 1).map_values(|v: i32| spec_as_unsigned(v))),
                        p1,
                    ),
                    Err(e) => (Err(e), p1),
                }
            },
            Encoding::Tagged16 => {
                let (r, p1) = spec_tagged_16(data, p);
                match r {
                    Ok(vs) => (
                        Ok(vs.subrange(0, extra as int + 1).map_values(|v: i32| spec_as_unsigned(v))),
                        p1,
                    ),
                    Err(e) => (Err(e), p1),
                }
            },
            Encoding::Null => (Ok(seq![0u32]), p),
        }
    }

    /// Decodes one run of this encoding and appends the first `extra + 1`
    /// words to `into`; on failure `into` is unchanged.
    #[verifier::rlimit(60)]
    pub fn decode_into(&self, data: &mut Reader, extra: usize, into: &mut Vec<u32>) -> (r: Result<
        (),
        DecodeError,
    >)
        requires
            old(data).wf(),
            extra < self.spec_max_chunk_size(),
        ensures
            final(data).wf(),
            final(data).bytes() == old(data).bytes(),
            ({
                let (sr, sp) = self.spec_decode(old(data).bytes(), old(data).bit_pos(), extra as nat);
                &&& final(data).bit_pos() == sp
                &&& match (r, sr) {
                    (Ok(()), Ok(ws)) => final(into)@ == old(into)@ + ws && ws.len() == extra + 1,
                    (Err(e), Err(se)) => e == se && final(into)@ == old(into)@,
                    _ => false,
                }
            }),
{
        match self {
            Encoding::VariableSigned => {
                let v = match variable_signed(data) {
                    Ok(v) => v,
                    Err(e) => {
                        return Err(e);
                    },
                };
                into.push(as_unsigned(v));
                proof {
                    let (sr, _) = self.spec_decode(old(data).bytes(), old(data).bit_pos(), extra as nat);
                    assert(into@ =~= old(into)@ + sr->Ok_0);
                }
            },
            Encoding::Variable => {
                let v = match variable(data) {
                    Ok(v) => v,
                    Err(e) => {
                        return Err(e);
                    },
                };
                into.push(v);
                proof {
                    let (sr, _) = self.spec_decode(old(data).bytes(), old(data).bit_pos(), extra as nat);
                    assert(into@ =~= old(into)@ + sr->Ok_0);
                }
            },
            Encoding::Negative14Bit => {
                let v = match negative_14_bit(data) {
                    Ok(v) => v,
                    Err(e) => {
                        return Err(e);
                    },
                };
                into.push(as_unsigned(v));
                proof {
                    let (sr, _) = self.spec_decode(old(data).bytes(), old(data).bit_pos(), extra as nat);
                    assert(into@ =~= old(into)@ + sr->Ok_0);
                }
            },
            Encoding::TaggedVariable => {
                let vs = match tagged_variable(data, extra) {
                    Ok(vs) => vs,
                    Err(e) => {
                        return Err(e);
                    },
                };
                push_words(&vs, extra + 1, into);
                proof {
                    let (sr, _) = self.spec_decode(old(data).bytes(), old(data).bit_pos(), extra as nat);
                    assert(into@ =~= old(into)@ + sr->Ok_0);
                }
            },
            Encoding::Tagged32 => {
                let vs = match tagged_32(data) {
                    Ok(vs) => vs,
                    Err(e) => {
                        return Err(e);
                    },
                };
                push_words(&vs, extra + 1, into);
                proof {
                    let (sr, _) = self.spec_decode(old(data).bytes(), old(data).bit_pos(), extra as nat);
                    assert(into@ =~= old(into)@ + sr->Ok_0);
                }
            },
            Encoding::Tagged16 => {
                let vs = match tagged_16(data) {
                    Ok(vs) => vs,
                    Err(e) => {
                        return Err(e);
                    },
                };
                push_words(&vs, extra + 1, into);
                proof {
                    let (sr, _) = self.spec_decode(old(data).bytes(), old(data).bit_pos(), extra as nat);
                    assert(into@ =~= old(into)@ + sr->Ok_0);
                }
            },
            Encoding::Null => {
                into.push(0);
                proof {
                    let (sr, _) = self.spec_decode(old(data).bytes(), old(data).bit_pos(), extra as nat);
                    assert(into@ =~= old(into)@ + sr->Ok_0);
                }
            },
        }
        Ok(())
    }
}

/// Appends the 32-bit patterns of the first `count` decoded values.
fn push_words(vs: &Vec<i32>, count: usize, into: &mut Vec<u32>)
    requires
        count <= vs@.len(),
    ensures
        final(into)@ == old(into)@ + vs@.subrange(0, count as int).map_values(
            |v: i32| spec_as_unsigned(v),
        ),
{
    let mut j: usize = 0;
    while j < count
        invariant
            j <= count <= vs@.len(),
            into@ == old(into)@ + vs@.subrange(0, j as int).map_values(
                |v: i32| spec_as_unsigned(v),
            ),
        decreases count - j,
    {
        into.push(as_unsigned(vs[j]));
        proof {
            assert(vs@.subrange(0, j + 1).map_values(|v: i32| spec_as_unsigned(v)) =~= vs@.subrange(
                0,
                j as int,
            ).map_values(|v: i32| spec_as_unsigned(v)).push(spec_as_unsigned(vs@[j as int])));
            assert(into@ =~= old(into)@ + vs@.subrange(0, j + 1).map_values(
                |v: i32| spec_as_unsigned(v),
            ));
        }
        j = j + 1;
    }
    proof {
        assert(into@ =~= old(into)@ + vs@.subrange(0, count as int).map_values(
            |v: i32| spec_as_unsigned(v),
        ));
    }
}

/// The unsigned variable-byte encoding of `value`: 7-bit groups, least
/// significant first, the high bit of each byte a continuation flag.
pub open spec fn spec_encode_variable(value: u32) -> Seq<u8>
    decreases value,
    via spec_encode_variable_decreases
{
    if value < 0x80 {
        seq![value as u8]
    } else {
        seq![((value & 0x7f) | 0x80) as u8] + spec_encode_variable(value >> 7u32)
    }
}

#[via_fn]
proof fn spec_encode_variable_decreases(value: u32) {
    assert(value >= 0x80 ==> value >> 7u32 < value) by (bit_vector);
}

/// Decoding an encoded group laid down at byte-aligned position `p` picks
/// up exactly the encoded value, merged into the accumulator at `offset`.
proof fn lemma_encode_variable_decodes(
    data: Seq<u8>,
    p: nat,
    offset: u32,
    acc: u32,
    value: u32,
)
    requires
        p % 8 == 0,
        offset % 7 == 0 && offset <= 28,
        offset == 0 || (value >> ((32 - offset) as u32)) == 0,
        p / 8 + spec_encode_variable(value).len() <= data.len(),
        data.subrange((p / 8) as int, (p / 8 + spec_encode_variable(value).len()) as int)
            == spec_encode_variable(value),
    ensures
        spec_variable_at(data, p, offset, acc) == (
            Ok::<u32, DecodeError>(acc | (value << offset)),
            p + spec_encode_variable(value).len() * 8,
        ),
    decreases value,
{
    let enc = spec_encode_variable(value);
    let q = p / 8;
    assert(data[q as int] == enc[0]);
    assert(align8(p) == p);
    assert(p == q * 8) by {
        vstd::arithmetic::div_mod::lemma_fundamental_div_mod(p as int, 8);
    }
    assert(q + 1 <= data.len());
    assert(p + 8 <= data.len() * 8);
    let (b, p1) = spec_read_u8(data, p);
    assert(b == Some(enc[0]) && p1 == p + 8);
    if value < 0x80 {
        let byte = value as u8;
        assert(byte & 0x80 == 0 && ((byte & 0x7f) as u32) == value) by (bit_vector)
            requires
                byte == value as u8,
                value < 0x80u32,
        ;
    } else {
        let byte = ((value & 0x7f) | 0x80) as u8;
        let rest = value >> 7u32;
        assert(byte & 0x80 != 0 && ((byte & 0x7f) as u32) == (value & 0x7f)) by (bit_vector)
            requires
                byte == ((value & 0x7f) | 0x80) as u8,
        ;
        // At offset 28 only four value bits remain, so the group has ended.
        assert(offset < 28) by (bit_vector)
            requires
                value >= 0x80u32,
                offset % 7 == 0 && offset <= 28,
                offset == 0 || (value >> ((32 - offset) as u32)) == 0,
        ;
        assert(rest >> ((32 - (offset + 7)) as u32) == 0) by (bit_vector)
            requires
                rest == value >> 7u32,
                offset % 7 == 0 && offset < 28,
                offset == 0 || (value >> ((32 - offset) as u32)) == 0,
        ;
        let enc_rest = spec_encode_variable(rest);
        assert(enc == seq![byte] + enc_rest);
        assert(data.subrange(
            (q + 1) as int,
            (q + 1 + enc_rest.len()) as int,
        ) =~= enc_rest) by {
            assert forall|i: int| 0 <= i < enc_rest.len() implies data.subrange(
                (q + 1) as int,
                (q + 1 + enc_rest.len()) as int,
            )[i] == enc_rest[i] by {
                assert(enc[i + 1] == enc_rest[i]);
                assert(data.subrange(q as int, (q + enc.len()) as int)[i + 1] == enc[i + 1]);
            }
        }
        assert((p + 8) % 8 == 0) by {
            lemma_fundamental_div_mod_converse((p + 8) as int, 8, q as int + 1, 0);
        }
        assert((p + 8) / 8 == q + 1) by {
            lemma_fundamental_div_mod_converse((p + 8) as int, 8, q as int + 1, 0);
        }
        assert(rest < value) by (bit_vector)
            requires
                rest == value >> 7u32,
                value >= 0x80u32,
        ;
        lemma_encode_variable_decodes(
            data,
            p + 8,
            (offset + 7) as u32,
            acc | (((byte & 0x7f) as u32) << offset),
            rest,
        );
        assert((acc | ((value & 0x7f) << offset)) | (rest << ((offset + 7) as u32)) == acc | (
        value << offset)) by (bit_vector)
            requires
                rest == value >> 7u32,
                offset % 7 == 0 && offset < 28,
                offset == 0 || (value >> ((32 - offset) as u32)) == 0,
        ;
    }
}

/// Round trip at the byte level: decoding an encoded value reads exactly
/// the encoded bytes and returns the value, for every 32-bit word.
pub proof fn lemma_variable_round_trip(value: u32)
    ensures
        spec_variable(spec_encode_variable(value), 0) == (
            Ok::<u32, DecodeError>(value),
            spec_encode_variable(value).len() * 8,
        ),
{
    let enc = spec_encode_variable(value);
    assert(enc.subrange(0, enc.len() as int) =~= enc);
    lemma_encode_variable_decodes(enc, 0, 0, 0, value);
    assert(0u32 | (value << 0u32) == value) by (bit_vector);
}

/// Encodes an unsigned variable-byte integer; decoding the result returns
/// `value` and consumes exactly these bytes.
pub fn encode_variable(value: u32) -> (r: Vec<u8>)
    ensures
        r@ == spec_encode_variable(value),
        spec_variable(r@, 0) == (Ok::<u32, DecodeError>(value), r@.len() * 8),
{
    let mut out: Vec<u8> = Vec::new();
    let mut v = value;
    while v >= 0x80
        invariant
            spec_encode_variable(value) == out@ + spec_encode_variable(v),
        decreases v,
    {
        proof {
            assert(v >= 0x80 ==> v >> 7u32 < v) by (bit_vector);
        }
        out.push((v & 0x7f) as u8 | 0x80);
        proof {
            assert(((v & 0x7f) as u8) | 0x80 == ((v & 0x7f) | 0x80) as u8) by (bit_vector);
            assert(spec_encode_variable(value) =~= out@ + spec_encode_variable(v >> 7u32));
        }
        v = v >> 7u32;
    }
    out.push(#[verifier::truncate] (v as u8));
    proof {
        assert(v < 0x80 ==> v as u8 == (v as u8) && spec_encode_variable(v) == seq![v as u8]);
        assert(out@ =~= spec_encode_variable(value));
        lemma_variable_round_trip(value);
    }
    out
}

/// Encodes a signed value as signed variable bytes (zig-zag, then unsigned
/// variable bytes); decoding the result returns `x` for every 32-bit
/// signed value: the complete round trip of the signed-variable coding.
pub fn encode_variable_signed(x: i32) -> (r: Vec<u8>)
    ensures
        spec_variable_signed(r@, 0) == (Ok::<i32, DecodeError>(x), r@.len() * 8),
{
    let u = zig_zag_encode(x);
    let r = encode_variable(u);
    proof {
        lemma_zig_zag_round_trip(x);
    }
    r
}

/// Variable-byte decoding moves the cursor forward and never past the end.
pub proof fn lemma_variable_at_pos(data: Seq<u8>, p: nat, offset: u32, acc: u32)
    requires
        p <= data.len() * 8,
    ensures
        p <= spec_variable_at(data, p, offset, acc).1 <= data.len() * 8,
    decreases data.len() * 8 - p,
{
    crate::reader::lemma_read_u8_pos(data, p);
    let (b, p1) = spec_read_u8(data, p);
    if b is Some && offset < 32 && b->0 & 0x80 != 0 {
        lemma_variable_at_pos(data, p1, (offset + 7) as u32, acc | (((b->0 & 0x7f) as u32) << offset));
    }
}

/// Each decoder moves the cursor forward and never past the end.
pub proof fn lemma_decode_pos(enc: Encoding, data: Seq<u8>, p: nat, extra: nat)
    requires
        p <= data.len() * 8,
    ensures
        p <= enc.spec_decode(data, p, extra).1 <= data.len() * 8,
{
    crate::reader::lemma_read_u8_pos(data, p);
    match enc {
        Encoding::VariableSigned | Encoding::Variable | Encoding::Negative14Bit => {
            lemma_variable_at_pos(data, p, 0, 0);
        },
        Encoding::TaggedVariable => {
            let (t, p1) = spec_read_u8(data, p);
            if t is Some {
                lemma_tagged_var_fields_pos(data, p1, t->0, 0, extra + 1, Seq::empty());
            }
        },
        Encoding::Tagged32 => {
            lemma_tagged_32_pos(data, p);
        },
        Encoding::Tagged16 => {
            lemma_tagged_16_pos(data, p);
        },
        Encoding::Null => {},
    }
}

proof fn lemma_tagged_field_pos(data: Seq<u8>, p: nat, width: nat)
    requires
        p <= data.len() * 8,
    ensures
        p <= spec_tagged_field(data, p, width).1 <= data.len() * 8,
{
}

proof fn lemma_tagged_var_fields_pos(
    data: Seq<u8>,
    p: nat,
    tag: u8,
    i: nat,
    count: nat,
    acc: Seq<i32>,
)
    requires
        p <= data.len() * 8,
    ensures
        p <= spec_tagged_var_fields(data, p, tag, i, count, acc).1 <= data.len() * 8,
    decreases count - i,
{
    if i < count && (tag >> (i as u8)) & 1 == 1 {
        lemma_variable_at_pos(data, p, 0, 0);
        let (r, p2) = spec_variable_signed(data, p);
        if r is Ok {
            lemma_tagged_var_fields_pos(data, p2, tag, i + 1, count, acc.push(r->Ok_0));
        }
    } else if i < count {
        lemma_tagged_var_fields_pos(data, p, tag, i + 1, count, acc.push(0i32));
    }
}

proof fn lemma_tagged_32_pos(data: Seq<u8>, p: nat)
    requires
        p <= data.len() * 8,
    ensures
        p <= spec_tagged_32(data, p).1 <= data.len() * 8,
{
    crate::reader::lemma_read_u8_pos(data, p);
    let (t, p1) = spec_read_u8(data, p);
    if t is Some {
        let tag = t->0;
        lemma_tagged_field_pos(data, p1, spec_t32_width(tag & 3));
        let (r0, p2) = spec_tagged_field(data, p1, spec_t32_width(tag & 3));
        lemma_tagged_field_pos(data, p2, spec_t32_width((tag >> 2u8) & 3));
        let (r1, p3) = spec_tagged_field(data, p2, spec_t32_width((tag >> 2u8) & 3));
        lemma_tagged_field_pos(data, p3, spec_t32_width((tag >> 4u8) & 3));
    }
}

proof fn lemma_tagged_16_pos(data: Seq<u8>, p: nat)
    requires
        p <= data.len() * 8,
    ensures
        p <= spec_tagged_16(data, p).1 <= data.len() * 8,
{
    crate::reader::lemma_read_u8_pos(data, p);
    let (t, p1) = spec_read_u8(data, p);
    if t is Some {
        let tag = t->0;
        lemma_tagged_field_pos(data, p1, spec_t16_width(tag & 3));
        let (r0, p2) = spec_tagged_field(data, p1, spec_t16_width(tag & 3));
        lemma_tagged_field_pos(data, p2, spec_t16_width((tag >> 2u8) & 3));
        let (r1, p3) = spec_tagged_field(data, p2, spec_t16_width((tag >> 2u8) & 3));
        lemma_tagged_field_pos(data, p3, spec_t16_width((tag >> 4u8) & 3));
        let (r2, p4) = spec_tagged_field(data, p3, spec_t16_width((tag >> 4u8) & 3));
        lemma_tagged_field_pos(data, p4, spec_t16_width((tag >> 6u8) & 3));
        let (r3, p5) = spec_tagged_field(data, p4, spec_t16_width((tag >> 6u8) & 3));
        crate::reader::lemma_align8_bounds(p5, data.len());
    }
}

/// Round trip: decoding an encoded value returns the value unchanged, for
/// every representable 32-bit signed value.
pub proof fn lemma_zig_zag_round_trip(x: i32)
    ensures
        spec_zig_zag_decode((spec_zig_zag_encode(x)) as u32) == x as int,
{
    if x >= 0 {
        let e = 2 * (x as int);
        assert(0 <= e < 0x1_0000_0000);
        lemma_fundamental_div_mod_converse(e, 2, x as int, 0);
        assert((e as u32) % 2 == 0 && ((e as u32) / 2) as int == x as int);
    } else {
        let e = -2 * (x as int) - 1;
        assert(1 <= e < 0x1_0000_0000);
        lemma_fundamental_div_mod_converse(e, 2, -(x as int) - 1, 1);
        assert((e as u32) % 2 == 1 && ((e as u32) / 2) as int == -(x as int) - 1);
    }
}

} // verus!
