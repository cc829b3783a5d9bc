//! The bit reader: a raw byte buffer and a bit cursor.
//!
//! Bits are consumed most-significant first within each byte. The cursor
//! never moves past the end of the buffer: a read that would do so fails
//! and leaves the reader where it was.

use vstd::arithmetic::div_mod::lemma_fundamental_div_mod_converse;
use vstd::arithmetic::power2::{lemma2_to64, lemma_pow2_unfold, pow2};
use vstd::prelude::*;

verus! {

/// The bit at absolute bit offset `p`, most-significant bit of each byte
/// first: offset 0 is bit 7 of byte 0.
pub open spec fn bit_at(data: Seq<u8>, p: nat) -> u32
    recommends
        p < data.len() * 8,
{
    (((data[(p / 8) as int] as u32) >> ((7 - p % 8) as u32)) & 1) as u32
}

/// The value of the `n` bits starting at bit offset `p`, first bit most
/// significant.
pub open spec fn bits_at(data: Seq<u8>, p: nat, n: nat) -> nat
    recommends
        p + n <= data.len() * 8,
    decreases n,
{
    if n == 0 {
        0
    } else {
        (bits_at(data, p, (n - 1) as nat) * 2 + bit_at(data, (p + n - 1) as nat)) as nat
    }
}

/// The next byte-aligned bit offset at or after `p`.
pub open spec fn align8(p: nat) -> nat {
    if p % 8 == 0 {
        p
    } else {
        (p + 8 - p % 8) as nat
    }
}

/// Reading `n` bits is possible only when `n` whole bits remain.
pub open spec fn spec_read_bits(data: Seq<u8>, p: nat, n: nat) -> (Option<u32>, nat) {
    if p + n <= data.len() * 8 {
        (Some(bits_at(data, p, n) as u32), p + n)
    } else {
        (None, p)
    }
}

/// The byte a read would return at `p`, without the cursor move.
pub open spec fn spec_peek_u8(data: Seq<u8>, p: nat) -> Option<u8> {
    let a = align8(p);
    if a + 8 <= data.len() * 8 {
        Some(data[(a / 8) as int])
    } else {
        None
    }
}

/// Reading a byte first re-aligns the cursor to a byte boundary.
pub open spec fn spec_read_u8(data: Seq<u8>, p: nat) -> (Option<u8>, nat) {
    let a = align8(p);
    if a + 8 <= data.len() * 8 {
        (Some(data[(a / 8) as int]), a + 8)
    } else {
        (None, a)
    }
}

/// Aligning moves forward by less than a byte and stays inside any
/// byte-aligned bound.
pub proof fn lemma_align8_bounds(p: nat, n: nat)
    requires
        p <= n * 8,
    ensures
        p <= align8(p) <= p + 7,
        align8(p) <= n * 8,
{
    if p % 8 != 0 {
        lemma_fundamental_div_mod_converse(
            align8(p) as int,
            8,
            (p / 8) as int + 1,
            0,
        );
        assert(p == (p / 8) * 8 + p % 8) by {
            vstd::arithmetic::div_mod::lemma_fundamental_div_mod(p as int, 8);
        }
        assert(p / 8 < n) by {
            assert(p < n * 8);
        }
        assert(align8(p) == ((p / 8) + 1) * 8);
        assert(((p / 8) + 1) * 8 <= n * 8) by (nonlinear_arith)
            requires
                p / 8 < n,
        ;
    }
}

/// A byte read moves the cursor forward and never past the end.
pub proof fn lemma_read_u8_pos(data: Seq<u8>, p: nat)
    requires
        p <= data.len() * 8,
    ensures
        p <= spec_read_u8(data, p).1 <= data.len() * 8,
        spec_read_u8(data, p).0 is Some ==> spec_read_u8(data, p).1 >= p + 8,
{
    lemma_align8_bounds(p, data.len());
}

/// An immutable byte buffer plus a bit cursor.
pub struct Reader {
    data: Vec<u8>,
    /// Byte index of the cursor.
    pos: usize,
    /// Bits already consumed from the byte at `pos`.
    bit: usize,
}

impl Reader {
    /// The underlying bytes.
    pub closed spec fn bytes(&self) -> Seq<u8> {
        self.data@
    }

    /// The cursor, as an absolute bit offset.
    pub closed spec fn bit_pos(&self) -> nat {
        (self.pos * 8 + self.bit) as nat
    }

    /// The number of bits in the buffer.
    pub open spec fn total_bits(&self) -> nat {
        self.bytes().len() * 8
    }

    /// The cursor stays inside the buffer (or just past its last byte).
    pub closed spec fn wf(&self) -> bool {
        &&& self.pos <= self.data@.len()
        &&& self.bit < 8
        &&& (self.pos == self.data@.len() ==> self.bit == 0)
        &&& self.data@.len() <= usize::MAX as nat / 8
    }

    pub proof fn lemma_wf_bounds(&self)
        requires
            self.wf(),
        ensures
            self.bit_pos() <= self.total_bits(),
    {
    }

    pub fn new(data: Vec<u8>) -> (r: Reader)
        requires
            data@.len() <= usize::MAX as nat / 8,
        ensures
            r.wf(),
            r.bytes() == data@,
            r.bit_pos() == 0,
    {
        Reader { data, pos: 0, bit: 0 }
    }

    /// True when no whole byte remains to read.
    pub fn is_at_end(&self) -> (r: bool)
        requires
            self.wf(),
        ensures
            r == (align8(self.bit_pos()) + 8 > self.total_bits()),
    {
        proof {
            self.lemma_align_shape();
        }
        if self.bit == 0 {
            self.pos == self.data.len()
        } else {
            self.pos + 1 == self.data.len()
        }
    }

    /// Relates the cursor's byte/bit split to `align8` of the bit offset.
    proof fn lemma_align_shape(&self)
        requires
            self.wf(),
        ensures
            self.bit == 0 ==> align8(self.bit_pos()) == self.pos * 8,
            self.bit != 0 ==> align8(self.bit_pos()) == (self.pos + 1) * 8,
            self.bit_pos() / 8 == self.pos as nat,
            self.bit_pos() % 8 == self.bit as nat,
    {
        lemma_fundamental_div_mod_converse(self.bit_pos() as int, 8, self.pos as int, self.bit as int);
    }

    /// Moves the cursor forward to the next byte boundary.
    pub fn byte_align(&mut self)
        requires
            old(self).wf(),
        ensures
            final(self).wf(),
            final(self).bytes() == old(self).bytes(),
            final(self).bit_pos() == align8(old(self).bit_pos()),
    {
        proof {
            self.lemma_align_shape();
        }
        if self.bit != 0 {
            self.bit = 0;
            self.pos = self.pos + 1;
        }
    }

    /// The number of whole or started bytes consumed so far.
    pub fn byte_offset(&self) -> (r: usize)
        requires
            self.wf(),
        ensures
            r as nat == (self.bit_pos() + 7) / 8,
            r <= self.bytes().len(),
    {
        if self.bit == 0 {
            proof {
                lemma_fundamental_div_mod_converse(
                    self.bit_pos() as int + 7,
                    8,
                    self.pos as int,
                    7,
                );
            }
            self.pos
        } else {
            proof {
                lemma_fundamental_div_mod_converse(
                    self.bit_pos() as int + 7,
                    8,
                    self.pos as int + 1,
                    self.bit as int - 1,
                );
            }
            self.pos + 1
        }
    }

    /// Reads `n` bits starting at the next byte boundary.
    pub fn read_byte_aligned_bits(&mut self, n: u32) -> (r: Option<u32>)
        requires
            old(self).wf(),
            n <= 32,
        ensures
            final(self).wf(),
            final(self).bytes() == old(self).bytes(),
            (r, final(self).bit_pos()) == spec_read_bits(
                old(self).bytes(),
                align8(old(self).bit_pos()),
                n as nat,
            ),
    {
        self.byte_align();
        self.read_bits(n)
    }

    /// The byte the next read would return, without moving the cursor.
    pub fn peek_u8(&self) -> (r: Option<u8>)
        requires
            self.wf(),
        ensures
            r == spec_peek_u8(self.bytes(), self.bit_pos()),
    {
        proof {
            self.lemma_align_shape();
        }
        if self.bit == 0 {
            if self.pos == self.data.len() {
                None
            } else {
                Some(self.data[self.pos])
            }
        } else {
            if self.pos + 1 == self.data.len() {
                None
            } else {
                Some(self.data[self.pos + 1])
            }
        }
    }

    /// Reads the next byte, after re-aligning to a byte boundary.
    pub fn read_u8(&mut self) -> (r: Option<u8>)
        requires
            old(self).wf(),
        ensures
            final(self).wf(),
            final(self).bytes() == old(self).bytes(),
            (r, final(self).bit_pos()) == spec_read_u8(old(self).bytes(), old(self).bit_pos()),
    {
        self.byte_align();
        proof {
            self.lemma_align_shape();
        }
        if self.pos == self.data.len() {
            None
        } else {
            let b = self.data[self.pos];
            self.pos = self.pos + 1;
            Some(b)
        }
    }

    /// Reads `n` bits, first bit most significant; fails (and does not move)
    /// when fewer than `n` bits remain.
    pub fn read_bits(&mut self, n: u32) -> (r: Option<u32>)
        requires
            old(self).wf(),
            n <= 32,
        ensures
            final(self).wf(),
            final(self).bytes() == old(self).bytes(),
            (r, final(self).bit_pos()) == spec_read_bits(old(self).bytes(), old(self).bit_pos(), n as nat),
    {
        let bytes_left = self.data.len() - self.pos;
        let bits_left = bytes_left * 8 - self.bit;
        if (n as usize) > bits_left {
            return None;
        }
        let ghost start = self.bit_pos();
        let mut acc: u32 = 0;
        let mut i: u32 = 0;
        proof {
            lemma2_to64();
        }
        while i < n
            invariant
                self.wf(),
                self.bytes() == old(self).bytes(),
                i <= n <= 32,
                self.bit_pos() == start + i,
                start + n <= self.total_bits(),
                acc as nat == bits_at(self.bytes(), start, i as nat),
                acc < pow2(i as nat),
            decreases n - i,
        {
            proof {
                self.lemma_align_shape();
                lemma_pow2_unfold((i + 1) as nat);
                lemma2_to64();
            }
            let byte = self.data[self.pos];
            let shift = (7 - self.bit) as u32;
            let b = ((byte >> shift) & 1) as u32;
            proof {
                let q = byte;
                let s = shift;
                assert((((q >> s) & 1) as u32) <= 1 && (((q >> s) & 1) as u32) == (((
                q as u32) >> s) & 1)) by (bit_vector);
                assert(b == bit_at(self.bytes(), (start + i) as nat));
            }
            acc = acc * 2 + b;
            self.bit = self.bit + 1;
            if self.bit == 8 {
                self.bit = 0;
                self.pos = self.pos + 1;
            }
            i = i + 1;
        }
        Some(acc)
    }
}

} // verus!
