use vstd::prelude::*;

use vstd::arithmetic::div_mod::{
    lemma_fundamental_div_mod, lemma_fundamental_div_mod_converse, lemma_mod_pos_bound,
};
use vstd::arithmetic::power2::{lemma2_to64, lemma_pow2_unfold, pow2};

use crate::dynamic_hdr::fields::{
    enc_fields, lemma_enc_fields_len, lemma_enc_fields_read_back, masked_fields, parse_fields,
    width_sum, widths_ok,
};
use crate::error::DecodeError;

verus! {

/// Maximum byte length of an assembled Dynamic HDR metadata payload.
///
/// Sized for a worst-case SL-HDR mode-1 + max extension fields populated:
/// approximately 2107 bytes.
pub const MAX_DYNAMIC_HDR_PAYLOAD: usize = 2200;

/// The number of bits a [`BitWriter`] can hold.
pub open spec fn max_payload_bits() -> int {
    MAX_DYNAMIC_HDR_PAYLOAD as int * 8
}

/// Bit `i` of byte `b`, counting from the most significant bit (`i == 0`).
pub open spec fn byte_bit(b: u8, i: int) -> bool {
    (b >> ((7 - i) as u8)) & 1u8 == 1u8
}

/// The bits of a byte sequence, most significant bit of each byte first.
pub open spec fn bits_of_bytes(s: Seq<u8>) -> Seq<bool> {
    Seq::new(s.len() * 8, |k: int| byte_bit(s[k / 8], k % 8))
}

/// The value of a bit string read most significant bit first.
pub open spec fn bits_val(s: Seq<bool>) -> nat
    decreases s.len(),
{
    if s.len() == 0 {
        0
    } else {
        2 * bits_val(s.drop_last()) + if s.last() {
            1nat
        } else {
            0nat
        }
    }
}

/// The `n` low bits of `v` (`n <= 32`), most significant first.
pub open spec fn bits_of(v: u32, n: nat) -> Seq<bool> {
    Seq::new(n, |i: int| (v >> ((n - 1 - i) as u32)) & 1u32 == 1u32)
}

/// Reading `n` bits at position `pos` of `bits`: the value read and the
/// position after it, or `None` when fewer than `n` bits remain.
pub open spec fn read_at(bits: Seq<bool>, pos: int, n: nat) -> Option<(nat, int)> {
    if 0 <= pos && pos + n <= bits.len() {
        Some((bits_val(bits.subrange(pos, pos + n)), pos + n))
    } else {
        None
    }
}

/// `bits` holds the bit string `s` starting at position `pos`.
pub open spec fn holds_at(bits: Seq<bool>, pos: int, s: Seq<bool>) -> bool {
    &&& 0 <= pos
    &&& pos + s.len() <= bits.len()
    &&& bits.subrange(pos, pos + s.len()) == s
}

/// `n` zero bits.
pub open spec fn zero_bits(n: int) -> Seq<bool> {
    Seq::new(n as nat, |i: int| false)
}

// ---------------------------------------------------------------------------
// Facts about the bit model
// ---------------------------------------------------------------------------

proof fn lemma_byte_index(a: int, b: int)
    requires
        0 <= a,
        0 <= b < 8,
    ensures
        (a * 8 + b) / 8 == a,
        (a * 8 + b) % 8 == b,
{
    lemma_fundamental_div_mod_converse(a * 8 + b, 8, a, b);
}

/// The bits of a byte sequence cut after `m` bytes are the first `8 * m`
/// bits of the whole.
pub proof fn lemma_bits_of_bytes_take(s: Seq<u8>, m: int)
    requires
        0 <= m <= s.len(),
    ensures
        bits_of_bytes(s.take(m)) == bits_of_bytes(s).take(m * 8),
{
    assert forall|k: int| 0 <= k < m * 8 implies bits_of_bytes(s.take(m))[k] == bits_of_bytes(
        s,
    )[k] by {
        assert(k / 8 < m) by {
            lemma_fundamental_div_mod_converse(k, 8, k / 8, k % 8);
        }
    }
    assert(bits_of_bytes(s.take(m)) =~= bits_of_bytes(s).take(m * 8));
}

/// A value read from `n` bits is below `2^n`.
pub proof fn lemma_bits_val_bound(s: Seq<bool>)
    ensures
        bits_val(s) < pow2(s.len()),
    decreases s.len(),
{
    if s.len() == 0 {
        lemma2_to64();
    } else {
        lemma_bits_val_bound(s.drop_last());
        lemma_pow2_unfold(s.len());
    }
}

proof fn lemma_shr_step(v: u32, k: u32)
    by (bit_vector)
    requires
        k < 31,
    ensures
        (v >> 1u32) >> k == v >> (k + 1u32),
        v >> 1u32 == v / 2,
        (v >> 0u32) & 1u32 == v % 2,
{
}

/// Reading back the `n` low bits of a value below `2^n` gives the value.
pub proof fn lemma_bits_of_val(v: u32, n: nat)
    requires
        n <= 32,
        v < pow2(n),
    ensures
        bits_of(v, n).len() == n,
        bits_val(bits_of(v, n)) == v,
    decreases n,
{
    if n == 0 {
        lemma2_to64();
        assert(bits_of(v, n) =~= Seq::<bool>::empty());
    } else {
        let h = (v / 2) as u32;
        lemma_shr_step(v, 0);
        lemma_pow2_unfold(n);
        assert(h < pow2((n - 1) as nat));
        assert forall|i: int| 0 <= i < n - 1 implies bits_of(v, n).drop_last()[i] == bits_of(
            h,
            (n - 1) as nat,
        )[i] by {
            lemma_shr_step(v, (n - 2 - i) as u32);
        }
        assert(bits_of(v, n).drop_last() =~= bits_of(h, (n - 1) as nat));
        lemma_bits_of_val(h, (n - 1) as nat);
        assert(bits_of(v, n).last() == (v % 2 == 1));
    }
}

/// Reading back the `n` low bits of any value gives the value modulo `2^n`.
pub proof fn lemma_bits_of_low(v: u32, n: nat)
    requires
        n <= 32,
    ensures
        bits_of(v, n).len() == n,
        bits_val(bits_of(v, n)) == (v as nat) % pow2(n),
    decreases n,
{
    if n == 0 {
        lemma2_to64();
        assert(bits_of(v, n) =~= Seq::<bool>::empty());
    } else {
        let h = (v / 2) as u32;
        lemma_shr_step(v, 0);
        lemma_pow2_unfold(n);
        assert forall|i: int| 0 <= i < n - 1 implies bits_of(v, n).drop_last()[i] == bits_of(
            h,
            (n - 1) as nat,
        )[i] by {
            lemma_shr_step(v, (n - 2 - i) as u32);
        }
        assert(bits_of(v, n).drop_last() =~= bits_of(h, (n - 1) as nat));
        lemma_bits_of_low(h, (n - 1) as nat);
        assert(bits_of(v, n).last() == (v % 2 == 1));
        let m = pow2((n - 1) as nat) as int;
        assert(m > 0) by {
            vstd::arithmetic::power2::lemma_pow2_pos((n - 1) as nat);
        }
        let a = h as int / m;
        let b = h as int % m;
        lemma_fundamental_div_mod(h as int, m);
        lemma_mod_pos_bound(h as int, m);
        assert((2 * m) * a == 2 * (m * a)) by (nonlinear_arith);
        lemma_fundamental_div_mod_converse(v as int, 2 * m, a, 2 * b + v % 2);
    }
}

/// A bit string placed in front of others is read back from its start.
pub proof fn lemma_holds_at_split(bits: Seq<bool>, pos: int, a: Seq<bool>, b: Seq<bool>)
    requires
        holds_at(bits, pos, a + b),
    ensures
        holds_at(bits, pos, a),
        holds_at(bits, pos + a.len(), b),
{
    let s = bits.subrange(pos, pos + (a + b).len());
    assert(s == a + b);
    assert(bits.subrange(pos, pos + a.len()) =~= s.subrange(0, a.len() as int));
    assert(s.subrange(0, a.len() as int) =~= a);
    assert(bits.subrange(pos + a.len(), pos + a.len() + b.len()) =~= s.subrange(
        a.len() as int,
        (a.len() + b.len()) as int,
    ));
    assert(s.subrange(a.len() as int, (a.len() + b.len()) as int) =~= b);
}

/// The `n` low bits of a value that fits in them are read back as the value.
pub proof fn lemma_read_field(bits: Seq<bool>, pos: int, v: u32, n: nat)
    requires
        n <= 32,
        v < pow2(n),
        holds_at(bits, pos, bits_of(v, n)),
    ensures
        read_at(bits, pos, n) == Some((v as nat, pos + n)),
{
    lemma_bits_of_val(v, n);
}

proof fn lemma_zero_shift(k: u32)
    by (bit_vector)
    ensures
        (0u32 >> k) & 1u32 == 0u32,
{
}

/// The bits of zero are all clear.
pub proof fn lemma_bits_of_zero(n: nat)
    ensures
        forall|i: int| 0 <= i < n ==> !#[trigger] bits_of(0u32, n)[i],
{
    assert forall|i: int| 0 <= i < n implies !#[trigger] bits_of(0u32, n)[i] by {
        lemma_zero_shift((n - 1 - i) as u32);
    }
}

/// A bit string is held at the start of itself followed by anything.
pub proof fn lemma_holds_at_prefix(a: Seq<bool>, b: Seq<bool>)
    ensures
        holds_at(a + b, 0, a),
{
    assert((a + b).subrange(0, a.len() as int) =~= a);
}

/// A value read from `n` bits is below `2^n`.
pub proof fn lemma_read_at_bound(bits: Seq<bool>, p: int, n: nat)
    requires
        read_at(bits, p, n) is Some,
    ensures
        read_at(bits, p, n).unwrap().0 < pow2(n),
{
    lemma_bits_val_bound(bits.subrange(p, p + n));
}

/// Reading one bit gives 1 when the bit is set and 0 otherwise.
pub proof fn lemma_read_bit(bits: Seq<bool>, p: int)
    ensures
        read_at(bits, p, 1) == (if 0 <= p < bits.len() {
            Some(
                (
                    if bits[p] {
                        1nat
                    } else {
                        0nat
                    },
                    p + 1,
                ),
            )
        } else {
            None
        }),
{
    if 0 <= p < bits.len() {
        let s = bits.subrange(p, p + 1);
        assert(s.drop_last() =~= Seq::<bool>::empty());
        assert(s.last() == bits[p]);
        assert(bits_val(s.drop_last()) == 0);
        assert(bits_val(s) == 2 * bits_val(s.drop_last()) + if s.last() {
            1nat
        } else {
            0nat
        });
    }
}

/// Bit `i` of a byte with bit `j` set is bit `i` of the byte, or `i == j`.
proof fn lemma_set_bit(b: u8, j: u8, i: u8)
    by (bit_vector)
    requires
        j < 8,
        i < 8,
    ensures
        (((b | (1u8 << ((7u8 - j) as u8))) >> ((7u8 - i) as u8)) & 1u8 == 1u8) == (((b >> ((7u8 - i) as u8)) & 1u8 == 1u8)
            || i == j),
{
}

proof fn lemma_low_bit(x: u8)
    by (bit_vector)
    ensures
        x & 1u8 <= 1,
{
}

proof fn lemma_zero_byte_bits(i: u8)
    by (bit_vector)
    requires
        i < 8,
    ensures
        (0u8 >> ((7u8 - i) as u8)) & 1u8 == 0u8,
{
}

// ---------------------------------------------------------------------------
// Packing bits into bytes
// ---------------------------------------------------------------------------

/// Bit `k` of `b`, or clear past its end.
pub open spec fn bit_or_zero(b: Seq<bool>, k: int) -> bool {
    0 <= k < b.len() && b[k]
}

/// The byte whose bits, most significant first, are `b0` … `b7`.
pub open spec fn byte_of_bits(
    b0: bool,
    b1: bool,
    b2: bool,
    b3: bool,
    b4: bool,
    b5: bool,
    b6: bool,
    b7: bool,
) -> u8 {
    (if b0 {
        0x80u8
    } else {
        0u8
    }) | (if b1 {
        0x40u8
    } else {
        0u8
    }) | (if b2 {
        0x20u8
    } else {
        0u8
    }) | (if b3 {
        0x10u8
    } else {
        0u8
    }) | (if b4 {
        0x08u8
    } else {
        0u8
    }) | (if b5 {
        0x04u8
    } else {
        0u8
    }) | (if b6 {
        0x02u8
    } else {
        0u8
    }) | (if b7 {
        0x01u8
    } else {
        0u8
    })
}

/// The bytes holding a bit string, most significant bit first, the last byte
/// padded with zero bits.
pub open spec fn bytes_of_bits(b: Seq<bool>) -> Seq<u8> {
    Seq::new(
        ((b.len() + 7) / 8) as nat,
        |i: int|
            byte_of_bits(
                bit_or_zero(b, 8 * i),
                bit_or_zero(b, 8 * i + 1),
                bit_or_zero(b, 8 * i + 2),
                bit_or_zero(b, 8 * i + 3),
                bit_or_zero(b, 8 * i + 4),
                bit_or_zero(b, 8 * i + 5),
                bit_or_zero(b, 8 * i + 6),
                bit_or_zero(b, 8 * i + 7),
            ),
    )
}

proof fn lemma_byte_of_bits_bits(
    b0: bool,
    b1: bool,
    b2: bool,
    b3: bool,
    b4: bool,
    b5: bool,
    b6: bool,
    b7: bool,
)
    ensures
        byte_bit(byte_of_bits(b0, b1, b2, b3, b4, b5, b6, b7), 0) == b0,
        byte_bit(byte_of_bits(b0, b1, b2, b3, b4, b5, b6, b7), 1) == b1,
        byte_bit(byte_of_bits(b0, b1, b2, b3, b4, b5, b6, b7), 2) == b2,
        byte_bit(byte_of_bits(b0, b1, b2, b3, b4, b5, b6, b7), 3) == b3,
        byte_bit(byte_of_bits(b0, b1, b2, b3, b4, b5, b6, b7), 4) == b4,
        byte_bit(byte_of_bits(b0, b1, b2, b3, b4, b5, b6, b7), 5) == b5,
        byte_bit(byte_of_bits(b0, b1, b2, b3, b4, b5, b6, b7), 6) == b6,
        byte_bit(byte_of_bits(b0, b1, b2, b3, b4, b5, b6, b7), 7) == b7,
{
    let v = byte_of_bits(b0, b1, b2, b3, b4, b5, b6, b7);
    assert(((v >> 7u8) & 1u8 == 1u8) == b0 && ((v >> 6u8) & 1u8 == 1u8) == b1 && ((v >> 5u8) & 1u8
        == 1u8) == b2 && ((v >> 4u8) & 1u8 == 1u8) == b3 && ((v >> 3u8) & 1u8 == 1u8) == b4 && ((v
        >> 2u8) & 1u8 == 1u8) == b5 && ((v >> 1u8) & 1u8 == 1u8) == b6 && ((v >> 0u8) & 1u8 == 1u8)
        == b7) by (bit_vector)
        requires
            v == byte_of_bits(b0, b1, b2, b3, b4, b5, b6, b7),
    ;
}

proof fn lemma_byte_bits_determine(x: u8, y: u8)
    requires
        forall|j: int| 0 <= j < 8 ==> byte_bit(x, j) == byte_bit(y, j),
    ensures
        x == y,
{
    assert(byte_bit(x, 0) == byte_bit(y, 0));
    assert(byte_bit(x, 1) == byte_bit(y, 1));
    assert(byte_bit(x, 2) == byte_bit(y, 2));
    assert(byte_bit(x, 3) == byte_bit(y, 3));
    assert(byte_bit(x, 4) == byte_bit(y, 4));
    assert(byte_bit(x, 5) == byte_bit(y, 5));
    assert(byte_bit(x, 6) == byte_bit(y, 6));
    assert(byte_bit(x, 7) == byte_bit(y, 7));
    assert(x == y) by (bit_vector)
        requires
            ((x >> 7u8) & 1u8 == 1u8) == ((y >> 7u8) & 1u8 == 1u8),
            ((x >> 6u8) & 1u8 == 1u8) == ((y >> 6u8) & 1u8 == 1u8),
            ((x >> 5u8) & 1u8 == 1u8) == ((y >> 5u8) & 1u8 == 1u8),
            ((x >> 4u8) & 1u8 == 1u8) == ((y >> 4u8) & 1u8 == 1u8),
            ((x >> 3u8) & 1u8 == 1u8) == ((y >> 3u8) & 1u8 == 1u8),
            ((x >> 2u8) & 1u8 == 1u8) == ((y >> 2u8) & 1u8 == 1u8),
            ((x >> 1u8) & 1u8 == 1u8) == ((y >> 1u8) & 1u8 == 1u8),
            ((x >> 0u8) & 1u8 == 1u8) == ((y >> 0u8) & 1u8 == 1u8),
    ;
}

/// The bytes packing a bit string hold that bit string followed by zero bits.
pub proof fn lemma_bytes_of_bits(b: Seq<bool>)
    ensures
        bytes_of_bits(b).len() == (b.len() + 7) / 8,
        bits_of_bytes(bytes_of_bits(b)) == b + zero_bits(bytes_of_bits(b).len() * 8 - b.len()),
{
    let s = bytes_of_bits(b);
    let t = b + zero_bits(s.len() * 8 - b.len());
    assert forall|k: int| 0 <= k < s.len() * 8 implies #[trigger] bits_of_bytes(s)[k] == t[k] by {
        let i = k / 8;
        let j = k % 8;
        lemma_fundamental_div_mod_converse(k, 8, i, j);
        lemma_byte_of_bits_bits(
            bit_or_zero(b, 8 * i),
            bit_or_zero(b, 8 * i + 1),
            bit_or_zero(b, 8 * i + 2),
            bit_or_zero(b, 8 * i + 3),
            bit_or_zero(b, 8 * i + 4),
            bit_or_zero(b, 8 * i + 5),
            bit_or_zero(b, 8 * i + 6),
            bit_or_zero(b, 8 * i + 7),
        );
        assert(t[k] == bit_or_zero(b, k));
    }
    assert(bits_of_bytes(s) =~= t);
}

/// Byte sequences with the same bits are equal.
pub proof fn lemma_bits_of_bytes_injective(x: Seq<u8>, y: Seq<u8>)
    requires
        bits_of_bytes(x) == bits_of_bytes(y),
    ensures
        x == y,
{
    assert(x.len() == y.len()) by {
        assert(bits_of_bytes(x).len() == x.len() * 8);
        assert(bits_of_bytes(y).len() == y.len() * 8);
    }
    assert forall|i: int| 0 <= i < x.len() implies x[i] == y[i] by {
        assert forall|j: int| 0 <= j < 8 implies byte_bit(x[i], j) == byte_bit(y[i], j) by {
            lemma_byte_index(i, j);
            assert(i * 8 + j < x.len() * 8);
            assert(bits_of_bytes(x)[i * 8 + j] == byte_bit(x[i], j));
            assert(bits_of_bytes(y)[i * 8 + j] == byte_bit(y[i], j));
            assert(bits_of_bytes(x)[i * 8 + j] == bits_of_bytes(y)[i * 8 + j]);
        }
        lemma_byte_bits_determine(x[i], y[i]);
    }
    assert(x =~= y);
}

// ---------------------------------------------------------------------------
// Reader
// ---------------------------------------------------------------------------

/// MSB-first bit reader over a byte slice.
pub struct BitReader<'a> {
    data: &'a [u8],
    byte_pos: usize,
    bit_pos: u8,
}

impl<'a> BitReader<'a> {
    /// The bits being read.
    pub closed spec fn bits(&self) -> Seq<bool> {
        bits_of_bytes(self.data@)
    }

    /// The number of bits already consumed.
    pub closed spec fn pos(&self) -> int {
        self.byte_pos * 8 + self.bit_pos
    }

    /// The reader's position lies within its bits.
    pub closed spec fn wf(&self) -> bool {
        &&& self.bit_pos < 8
        &&& self.pos() <= self.bits().len()
    }

    /// A reader positioned at the first bit of `data`.
    pub fn new(data: &'a [u8]) -> (r: Self)
        ensures
            r.wf(),
            r.bits() == bits_of_bytes(data@),
            r.pos() == 0,
    {
        BitReader { data, byte_pos: 0, bit_pos: 0 }
    }

    /// The index of the byte holding the next bit.
    pub fn byte_pos(&self) -> (b: usize)
        requires
            self.wf(),
        ensures
            b == self.pos() / 8,
    {
        proof {
            lemma_byte_index(self.byte_pos as int, self.bit_pos as int);
        }
        self.byte_pos
    }

    /// The index (0 = most significant) of the next bit within its byte.
    pub fn bit_pos(&self) -> (b: u8)
        requires
            self.wf(),
        ensures
            b == self.pos() % 8,
    {
        proof {
            lemma_byte_index(self.byte_pos as int, self.bit_pos as int);
        }
        self.bit_pos
    }

    /// Number of bits not yet consumed.
    pub fn remaining_bits(&self) -> (n: usize)
        requires
            self.wf(),
            self.bits().len() <= usize::MAX,
        ensures
            n == self.bits().len() - self.pos(),
    {
        let remaining_bytes = self.data.len() - self.byte_pos;
        remaining_bytes * 8 - self.bit_pos as usize
    }

    /// Read `n` bits (`n <= 32`) MSB-first as a `u32`.
    ///
    /// Returns [`DecodeError::MalformedPayload`], consuming nothing, when
    /// fewer than `n` bits remain.
    pub(crate) fn read_bits(&mut self, n: u8) -> (r: Result<u32, DecodeError>)
        requires
            old(self).wf(),
            n <= 32,
        ensures
            final(self).wf(),
            final(self).bits() == old(self).bits(),
            match read_at(old(self).bits(), old(self).pos(), n as nat) {
                Some((v, p)) => r == Ok::<u32, DecodeError>(v as u32) && final(self).pos() == p,
                None => r == Err::<u32, DecodeError>(DecodeError::MalformedPayload) && final(self).pos() == old(self).pos(),
            },
    {
        let ghost bits = self.bits();
        let ghost p0 = self.pos();
        let avail_bytes = self.data.len() - self.byte_pos;
        let enough = if avail_bytes >= 5 {
            true
        } else {
            avail_bytes * 8 >= self.bit_pos as usize + n as usize
        };
        if !enough {
            return Err(DecodeError::MalformedPayload);
        }
        proof {
            lemma2_to64();
        }
        let mut result: u32 = 0;
        let mut i: u8 = 0;
        while i < n
            invariant
                self.wf(),
                self.bits() == bits,
                0 <= p0,
                p0 + n <= bits.len(),
                i <= n <= 32,
                self.pos() == p0 + i,
                result == bits_val(bits.subrange(p0, p0 + i)),
                result < pow2(i as nat),
                pow2(32) == 0x100000000,
            decreases n - i,
        {
            proof {
                lemma_byte_index(self.byte_pos as int, self.bit_pos as int);
                lemma_pow2_unfold((i + 1) as nat);
                lemma_pow2_monotone((i + 1) as nat, 32);
                assert(bits.subrange(p0, p0 + i + 1).drop_last() =~= bits.subrange(p0, p0 + i));
            }
            let bit = (self.data[self.byte_pos] >> (7 - self.bit_pos)) & 1;
            proof {
                lemma_low_bit(self.data[self.byte_pos as int] >> ((7 - self.bit_pos) as u8));
            }
            result = result * 2 + bit as u32;
            self.bit_pos = self.bit_pos + 1;
            if self.bit_pos == 8 {
                self.byte_pos = self.byte_pos + 1;
                self.bit_pos = 0;
            }
            i = i + 1;
        }
        Ok(result)
    }

    /// Read `n` bits (`1 <= n <= 8`) as a `u8`.
    pub fn read_u8(&mut self, n: u8) -> (r: Result<u8, DecodeError>)
        requires
            old(self).wf(),
            1 <= n <= 8,
        ensures
            final(self).wf(),
            final(self).bits() == old(self).bits(),
            match read_at(old(self).bits(), old(self).pos(), n as nat) {
                Some((v, p)) => r == Ok::<u8, DecodeError>(v as u8) && final(self).pos() == p,
                None => r == Err::<u8, DecodeError>(DecodeError::MalformedPayload) && final(self).pos() == old(self).pos(),
            },
    {
        let ghost bits = old(self).bits();
        let ghost p0 = old(self).pos();
        proof {
            if 0 <= p0 && p0 + n <= bits.len() {
                lemma_bits_val_bound(bits.subrange(p0, p0 + n));
                lemma_pow2_monotone(n as nat, 8);
                lemma2_to64();
            }
        }
        let v = self.read_bits(n)?;
        Ok(v as u8)
    }

    /// Read `n` bits (`1 <= n <= 16`) as a `u16`.
    pub fn read_u16(&mut self, n: u8) -> (r: Result<u16, DecodeError>)
        requires
            old(self).wf(),
            1 <= n <= 16,
        ensures
            final(self).wf(),
            final(self).bits() == old(self).bits(),
            match read_at(old(self).bits(), old(self).pos(), n as nat) {
                Some((v, p)) => r == Ok::<u16, DecodeError>(v as u16) && final(self).pos() == p,
                None => r == Err::<u16, DecodeError>(DecodeError::MalformedPayload) && final(self).pos() == old(self).pos(),
            },
    {
        let ghost bits = old(self).bits();
        let ghost p0 = old(self).pos();
        proof {
            if 0 <= p0 && p0 + n <= bits.len() {
                lemma_bits_val_bound(bits.subrange(p0, p0 + n));
                lemma_pow2_monotone(n as nat, 16);
                lemma2_to64();
            }
        }
        let v = self.read_bits(n)?;
        Ok(v as u16)
    }

    /// Read `n` bits (`1 <= n <= 32`) as a `u32`.
    pub fn read_u32(&mut self, n: u8) -> (r: Result<u32, DecodeError>)
        requires
            old(self).wf(),
            1 <= n <= 32,
        ensures
            final(self).wf(),
            final(self).bits() == old(self).bits(),
            match read_at(old(self).bits(), old(self).pos(), n as nat) {
                Some((v, p)) => r == Ok::<u32, DecodeError>(v as u32) && final(self).pos() == p,
                None => r == Err::<u32, DecodeError>(DecodeError::MalformedPayload) && final(self).pos() == old(self).pos(),
            },
    {
        self.read_bits(n)
    }

    /// Read one bit as a `bool`.
    pub fn read_bool(&mut self) -> (r: Result<bool, DecodeError>)
        requires
            old(self).wf(),
        ensures
            final(self).wf(),
            final(self).bits() == old(self).bits(),
            match read_at(old(self).bits(), old(self).pos(), 1) {
                Some((v, p)) => r == Ok::<bool, DecodeError>(v == 1) && final(self).pos() == p,
                None => r == Err::<bool, DecodeError>(DecodeError::MalformedPayload) && final(self).pos() == old(self).pos(),
            },
    {
        proof {
            let bits = old(self).bits();
            let p0 = old(self).pos();
            if 0 <= p0 && p0 + 1 <= bits.len() {
                lemma_bits_val_bound(bits.subrange(p0, p0 + 1));
                lemma2_to64();
            }
        }
        let v = self.read_bits(1)?;
        Ok(v != 0)
    }
}

/// `2^a <= 2^b` for `a <= b`.
pub proof fn lemma_pow2_monotone(a: nat, b: nat)
    requires
        a <= b,
    ensures
        pow2(a) <= pow2(b),
    decreases b - a,
{
    if a < b {
        lemma_pow2_monotone(a, (b - 1) as nat);
        lemma_pow2_unfold(b);
    }
}

// ---------------------------------------------------------------------------
// Writer
// ---------------------------------------------------------------------------

/// MSB-first bit writer into a fixed [`MAX_DYNAMIC_HDR_PAYLOAD`]-byte buffer.
pub struct BitWriter {
    buf: [u8; MAX_DYNAMIC_HDR_PAYLOAD],
    byte_pos: usize,
    bit_pos: u8,
}

impl BitWriter {
    /// The number of bits written so far.
    pub closed spec fn pos(&self) -> int {
        self.byte_pos * 8 + self.bit_pos
    }

    /// The bits written so far, in order.
    pub closed spec fn written(&self) -> Seq<bool> {
        bits_of_bytes(self.buf@).take(self.pos())
    }

    /// The position lies within the buffer and every bit past it is zero.
    pub closed spec fn wf(&self) -> bool {
        &&& self.bit_pos < 8
        &&& self.pos() <= max_payload_bits()
        &&& forall|k: int|
            self.pos() <= k < max_payload_bits() ==> !#[trigger] bits_of_bytes(self.buf@)[k]
    }

    /// An empty writer.
    pub fn new() -> (w: Self)
        ensures
            w.wf(),
            w.written() == Seq::<bool>::empty(),
    {
        let mut buf: [u8; MAX_DYNAMIC_HDR_PAYLOAD] = [0u8; 2200];
        let mut i: usize = 0;
        while i < MAX_DYNAMIC_HDR_PAYLOAD
            invariant
                i <= MAX_DYNAMIC_HDR_PAYLOAD,
                buf@.len() == MAX_DYNAMIC_HDR_PAYLOAD,
                forall|k: int| 0 <= k < i ==> #[trigger] buf@[k] == 0u8,
            decreases MAX_DYNAMIC_HDR_PAYLOAD - i,
        {
            buf[i] = 0;
            i += 1;
        }
        let w = BitWriter { buf, byte_pos: 0, bit_pos: 0 };
        assert forall|k: int| 0 <= k < max_payload_bits() implies !#[trigger] bits_of_bytes(
            w.buf@,
        )[k] by {
            lemma_fundamental_div_mod(k, 8);
            lemma_mod_pos_bound(k, 8);
            assert(0 <= k / 8 < MAX_DYNAMIC_HDR_PAYLOAD);
            assert(buf@[k / 8] == 0);
            lemma_zero_byte_bits((k % 8) as u8);
        }
        assert(w.written() =~= Seq::<bool>::empty());
        w
    }

    /// Append one bit.
    fn write_bit(&mut self, b: bool)
        requires
            old(self).wf(),
            old(self).pos() < max_payload_bits(),
        ensures
            final(self).wf(),
            final(self).pos() == old(self).pos() + 1,
            final(self).written() == old(self).written().push(b),
    {
        let ghost old_bits = bits_of_bytes(self.buf@);
        let ghost p = self.pos();
        proof {
            lemma_byte_index(self.byte_pos as int, self.bit_pos as int);
        }
        if b {
            let j = self.bit_pos;
            let idx = self.byte_pos;
            let old_byte = self.buf[idx];
            self.buf[idx] = old_byte | (1u8 << (7 - j));
            assert forall|k: int| 0 <= k < max_payload_bits() implies #[trigger] bits_of_bytes(
                self.buf@,
            )[k] == old_bits.update(p, true)[k] by {
                if k / 8 == idx {
                    lemma_set_bit(old_byte, j, (k % 8) as u8);
                    lemma_fundamental_div_mod_converse(k, 8, k / 8, k % 8);
                }
            }
            assert(bits_of_bytes(self.buf@) =~= old_bits.update(p, true));
        }
        self.bit_pos = self.bit_pos + 1;
        if self.bit_pos == 8 {
            self.byte_pos = self.byte_pos + 1;
            self.bit_pos = 0;
        }
        assert(self.written() =~= old(self).written().push(b));
    }

    /// Append the `n` low bits of `value` (`n <= 32`), MSB-first; with
    /// `n == 0` nothing is written. The buffer must not be full.
    pub(crate) fn write_bits(&mut self, value: u32, n: u8)
        requires
            old(self).wf(),
            n <= 32,
            old(self).written().len() < max_payload_bits(),
            old(self).written().len() + n <= max_payload_bits(),
        ensures
            final(self).wf(),
            final(self).written() == old(self).written() + bits_of(value, n as nat),
    {
        let ghost w0 = self.written();
        assert(w0.len() == self.pos());
        let mut i: u8 = 0;
        while i < n
            invariant
                self.wf(),
                n <= 32,
                i <= n,
                self.pos() == w0.len() + i,
                w0.len() + n <= max_payload_bits(),
                self.written() == w0 + bits_of(value, n as nat).take(i as int),
            decreases n - i,
        {
            let bit = (value >> ((n - 1 - i) as u32)) & 1;
            self.write_bit(bit == 1);
            assert(bits_of(value, n as nat).take(i + 1) =~= bits_of(value, n as nat).take(
                i as int,
            ).push(bit == 1));
            assert(self.written() =~= w0 + bits_of(value, n as nat).take(i + 1));
            i = i + 1;
        }
        assert(bits_of(value, n as nat).take(n as int) =~= bits_of(value, n as nat));
    }

    /// Append the `n` low bits of `value` (`1 <= n <= 8`).
    pub fn write_u8(&mut self, value: u8, n: u8)
        requires
            old(self).wf(),
            1 <= n <= 8,
            old(self).written().len() + n <= max_payload_bits(),
        ensures
            final(self).wf(),
            final(self).written() == old(self).written() + bits_of(value as u32, n as nat),
    {
        self.write_bits(value as u32, n);
    }

    /// Append the `n` low bits of `value` (`1 <= n <= 16`).
    pub fn write_u16(&mut self, value: u16, n: u8)
        requires
            old(self).wf(),
            1 <= n <= 16,
            old(self).written().len() + n <= max_payload_bits(),
        ensures
            final(self).wf(),
            final(self).written() == old(self).written() + bits_of(value as u32, n as nat),
    {
        self.write_bits(value as u32, n);
    }

    /// Append the `n` low bits of `value` (`1 <= n <= 32`).
    pub fn write_u32(&mut self, value: u32, n: u8)
        requires
            old(self).wf(),
            1 <= n <= 32,
            old(self).written().len() + n <= max_payload_bits(),
        ensures
            final(self).wf(),
            final(self).written() == old(self).written() + bits_of(value, n as nat),
    {
        self.write_bits(value, n);
    }

    /// Append one bit.
    pub fn write_bool(&mut self, value: bool)
        requires
            old(self).wf(),
            old(self).written().len() + 1 <= max_payload_bits(),
        ensures
            final(self).wf(),
            final(self).written() == old(self).written() + bits_of(
                if value {
                    1u32
                } else {
                    0u32
                },
                1,
            ),
    {
        let v: u32 = if value {
            1
        } else {
            0
        };
        self.write_bits(v, 1);
    }

    /// The number of bits written so far.
    pub fn bit_len(&self) -> (n: usize)
        requires
            self.wf(),
        ensures
            n == self.written().len(),
    {
        self.byte_pos * 8 + self.bit_pos as usize
    }

    /// The buffer and the number of bytes used, the last one zero-padded.
    pub fn finish(self) -> (r: ([u8; MAX_DYNAMIC_HDR_PAYLOAD], usize))
        requires
            self.wf(),
        ensures
            r.1 == (self.written().len() + 7) / 8,
            r.1 <= MAX_DYNAMIC_HDR_PAYLOAD,
            bits_of_bytes(r.0@) == self.written() + zero_bits(
                max_payload_bits() - self.written().len(),
            ),
    {
        let len = if self.bit_pos == 0 {
            self.byte_pos
        } else {
            self.byte_pos + 1
        };
        let ghost w = self.written();
        assert(bits_of_bytes(self.buf@) =~= w + zero_bits(max_payload_bits() - w.len()));
        (self.buf, len)
    }
}

/// Writer then reader: a fresh [`BitWriter`] given `k` writes, of the `ns[i]`
/// low bits of each `vs[i]` in turn, has written `enc_fields(vs, ns)` (each
/// write appends `bits_of(vs[i], ns[i])`); `finish` then returns a buffer
/// holding those bits and zeros after them, and a length of `(N + 7) / 8`
/// bytes for `N` bits written. A [`BitReader`] over that prefix reads back,
/// field by field, the low `ns[i]` bits of each `vs[i]` and is then left
/// with fewer than 8 bits, all zero.
pub proof fn lemma_writer_reader_round_trip(vs: Seq<u32>, ns: Seq<u8>, buf: Seq<u8>, len: int)
    requires
        vs.len() == ns.len(),
        widths_ok(ns),
        width_sum(ns) <= max_payload_bits(),
        buf.len() == MAX_DYNAMIC_HDR_PAYLOAD,
        bits_of_bytes(buf) == enc_fields(vs, ns) + zero_bits(max_payload_bits() - width_sum(ns)),
        len == (width_sum(ns) + 7) / 8,
    ensures
        0 <= len <= MAX_DYNAMIC_HDR_PAYLOAD,
        bits_of_bytes(buf.take(len)).len() == 8 * len,
        8 * len - width_sum(ns) < 8,
        parse_fields(bits_of_bytes(buf.take(len)), 0, ns) == Some(
            (masked_fields(vs, ns), width_sum(ns) as int),
        ),
        forall|k: int|
            width_sum(ns) <= k < 8 * MAX_DYNAMIC_HDR_PAYLOAD ==> !#[trigger] bits_of_bytes(buf)[k],
{
    let n = width_sum(ns) as int;
    lemma_enc_fields_len(vs, ns);
    lemma_bits_of_bytes_take(buf, len);
    let bits = bits_of_bytes(buf.take(len));
    let enc = enc_fields(vs, ns);
    assert(bits == (enc + zero_bits(max_payload_bits() - n)).take(len * 8));
    assert(bits == enc + zero_bits(len * 8 - n)) by {
        assert(bits =~= enc + zero_bits(len * 8 - n));
    }
    lemma_holds_at_prefix(enc, zero_bits(len * 8 - n));
    lemma_enc_fields_read_back(bits, 0, vs, ns);
}

} // verus!
