//! Bit-level reader for H.264 headers: single bits, fixed-width fields, and
//! Exp-Golomb coded integers, each proved against a mathematical model of the
//! bit stream.
use vstd::prelude::*;
use vstd::arithmetic::power2::{pow2, lemma_pow2_unfold, lemma_pow2_strictly_increases, lemma2_to64};

verus! {

/// The bit at position `i` of the byte sequence, most significant bit of each
/// byte first.
pub open spec fn spec_bit(data: Seq<u8>, i: int) -> u8
    recommends
        0 <= i < data.len() * 8,
{
    (data[i / 8] >> ((7 - (i % 8)) as u8)) & 1
}

proof fn lemma_spec_bit_le_one(data: Seq<u8>, i: int)
    ensures
        spec_bit(data, i) <= 1,
{
    let b = data[i / 8];
    let s = (7 - (i % 8)) as u8;
    assert((b >> s) & 1 <= 1) by (bit_vector);
}

proof fn lemma_bit_mul(b: u8, x: nat)
    ensures
        b == 0 ==> b * x == 0,
        b == 1 ==> b * x == x,
{
    if b == 0 {
        assert(b * x == 0) by (nonlinear_arith)
            requires
                b == 0,
        ;
    }
    if b == 1 {
        assert(b * x == x) by (nonlinear_arith)
            requires
                b == 1,
        ;
    }
}

/// The value of the `n` bits starting at `pos`, read most significant first.
pub open spec fn spec_bits_value(data: Seq<u8>, pos: int, n: nat) -> nat
    decreases n,
{
    if n == 0 {
        0
    } else {
        (spec_bit(data, pos) * pow2((n - 1) as nat) + spec_bits_value(
            data,
            pos + 1,
            (n - 1) as nat,
        )) as nat
    }
}

/// An `n`-bit field is bounded by `pow2(n)`.
pub proof fn lemma_bits_value_bound(data: Seq<u8>, pos: int, n: nat)
    ensures
        spec_bits_value(data, pos, n) < pow2(n),
    decreases n,
{
    if n == 0 {
        assert(pow2(0) == 1) by {
            lemma2_to64();
        }
    } else {
        lemma_bits_value_bound(data, pos + 1, (n - 1) as nat);
        lemma_spec_bit_le_one(data, pos);
        lemma_pow2_unfold(n);
        lemma_bit_mul(spec_bit(data, pos), pow2((n - 1) as nat));
    }
}

/// Reading one more bit doubles the value and adds the new bit.
proof fn lemma_bits_value_snoc(data: Seq<u8>, pos: int, n: nat)
    ensures
        spec_bits_value(data, pos, n + 1) == 2 * spec_bits_value(data, pos, n) + spec_bit(
            data,
            pos + n,
        ),
    decreases n,
{
    if n == 0 {
        assert(pow2(0) == 1) by {
            lemma2_to64();
        }
        lemma_spec_bit_le_one(data, pos);
        lemma_bit_mul(spec_bit(data, pos), pow2(0));
        assert(spec_bits_value(data, pos + 1, 0) == 0);
        assert(spec_bits_value(data, pos, 0) == 0);
        assert(spec_bits_value(data, pos, 1) == spec_bit(data, pos) * pow2(0)
            + spec_bits_value(data, pos + 1, 0));
    } else {
        let nm1 = (n - 1) as nat;
        lemma_bits_value_snoc(data, pos + 1, nm1);
        lemma_pow2_unfold(n);
        lemma_spec_bit_le_one(data, pos);
        lemma_bit_mul(spec_bit(data, pos), pow2(n));
        lemma_bit_mul(spec_bit(data, pos), pow2(nm1));
        assert(nm1 + 1 == n);
        assert(spec_bits_value(data, pos, n + 1) == spec_bit(data, pos) * pow2(n)
            + spec_bits_value(data, pos + 1, n));
        assert(spec_bits_value(data, pos, n) == spec_bit(data, pos) * pow2(nm1)
            + spec_bits_value(data, pos + 1, nm1));
    }
}

/// What `BitReader::read_bits` yields from position `pos`: the field value and
/// the new position, or nothing when fewer than `n` bits remain.
pub open spec fn spec_read_bits(data: Seq<u8>, pos: int, n: nat) -> Option<(u32, int)> {
    if 0 <= pos && pos + n <= data.len() * 8 && n <= 32 {
        Some((spec_bits_value(data, pos, n) as u32, pos + n))
    } else {
        None
    }
}

/// The length of the run of zero bits starting at `pos` (stopping at the end
/// of the data).
pub open spec fn spec_zeros_from(data: Seq<u8>, pos: int) -> nat
    decreases data.len() * 8 - pos,
{
    if pos < 0 || pos >= data.len() * 8 {
        0
    } else if spec_bit(data, pos) == 1 {
        0
    } else {
        1 + spec_zeros_from(data, pos + 1)
    }
}

/// What `BitReader::read_ue` yields from position `pos`: the unsigned
/// Exp-Golomb value `pow2(z) - 1 + suffix` after a run of `z` zero bits, a one
/// bit, and a `z`-bit suffix. Runs longer than 31 zeros and truncated codes
/// yield nothing.
pub open spec fn spec_read_ue(data: Seq<u8>, pos: int) -> Option<(u32, int)> {
    let z = spec_zeros_from(data, pos);
    if pos < 0 || pos + z >= data.len() * 8 {
        None
    } else if z > 31 {
        None
    } else if z == 0 {
        Some((0, pos + 1))
    } else {
        match spec_read_bits(data, pos + z + 1, z) {
            Some((suffix, p)) => Some(((pow2(z) - 1 + suffix) as u32, p)),
            None => None,
        }
    }
}

/// What `BitReader::read_se` yields: the signed Exp-Golomb mapping of the
/// unsigned value `ue`, with magnitude `(ue + 1) / 2`, non-positive exactly
/// when `ue` is even.
pub open spec fn spec_read_se(data: Seq<u8>, pos: int) -> Option<(i32, int)> {
    match spec_read_ue(data, pos) {
        Some((ue, p)) => {
            let magnitude = (ue + 1) / 2;
            if ue % 2 == 0 {
                Some(((-magnitude) as i32, p))
            } else {
                Some((magnitude as i32, p))
            }
        },
        None => None,
    }
}

/// A cursor over a byte slice that yields bits most significant first, as
/// H.264 headers are written.
pub struct BitReader<'a> {
    data: &'a [u8],
    byte_offset: usize,
    bit_offset: u8,
}

impl<'a> BitReader<'a> {
    /// The bytes being read.
    pub closed spec fn spec_data(&self) -> Seq<u8> {
        self.data@
    }

    /// The current position, in bits from the start of the data.
    pub closed spec fn pos(&self) -> int {
        self.byte_offset * 8 + self.bit_offset
    }

    /// The cursor is within the data, never past its end.
    pub closed spec fn wf(&self) -> bool {
        &&& self.bit_offset < 8
        &&& self.byte_offset <= self.data@.len()
        &&& (self.byte_offset == self.data@.len() ==> self.bit_offset == 0)
    }

    pub fn new(data: &'a [u8]) -> (r: Self)
        ensures
            r.wf(),
            r.spec_data() == data@,
            r.pos() == 0,
    {
        BitReader { data, byte_offset: 0, bit_offset: 0 }
    }

    /// Read a single bit, or nothing at the end of the data.
    pub fn read_bit(&mut self) -> (r: Option<u8>)
        requires
            old(self).wf(),
        ensures
            final(self).wf(),
            final(self).spec_data() == old(self).spec_data(),
            old(self).pos() < old(self).spec_data().len() * 8 ==> {
                &&& r == Some(spec_bit(old(self).spec_data(), old(self).pos()))
                &&& final(self).pos() == old(self).pos() + 1
            },
            old(self).pos() >= old(self).spec_data().len() * 8 ==> {
                &&& r is None
                &&& *final(self) == *old(self)
            },
    {
        if self.byte_offset >= self.data.len() {
            return None;
        }
        let b = self.data[self.byte_offset];
        let bit = (b >> (7 - self.bit_offset)) & 1;
        proof {
            let p = self.pos();
            assert(p / 8 == self.byte_offset && p % 8 == self.bit_offset) by (nonlinear_arith)
                requires
                    p == self.byte_offset * 8 + self.bit_offset,
                    0 <= self.bit_offset < 8,
                    self.byte_offset >= 0,
            ;
        }
        self.bit_offset = self.bit_offset + 1;
        if self.bit_offset == 8 {
            self.bit_offset = 0;
            self.byte_offset = self.byte_offset + 1;
        }
        Some(bit)
    }

    /// Read an `n`-bit field, most significant bit first. On failure the
    /// remaining bits are consumed.
    pub fn read_bits(&mut self, n: u8) -> (r: Option<u32>)
        requires
            old(self).wf(),
            n <= 32,
        ensures
            final(self).wf(),
            final(self).spec_data() == old(self).spec_data(),
            match spec_read_bits(old(self).spec_data(), old(self).pos(), n as nat) {
                Some((v, p)) => r == Some(v) && final(self).pos() == p,
                None => r is None,
            },
    {
        let ghost data = self.spec_data();
        let ghost pos0 = self.pos();
        let mut result: u32 = 0;
        let mut i: u8 = 0;
        while i < n
            invariant
                self.wf(),
                self.spec_data() == data,
                data == old(self).spec_data(),
                pos0 == old(self).pos(),
                i <= n,
                n <= 32,
                pos0 >= 0,
                self.pos() == pos0 + i,
                pos0 + i <= data.len() * 8,
                result == spec_bits_value(data, pos0, i as nat),
            decreases n - i,
        {
            match self.read_bit() {
                Some(b) => {
                    proof {
                        lemma_bits_value_snoc(data, pos0, i as nat);
                        lemma_bits_value_bound(data, pos0, i as nat);
                        if i < 31 {
                            lemma_pow2_strictly_increases(i as nat, 31);
                        }
                        lemma2_to64();
                        lemma_spec_bit_le_one(data, pos0 + i);
                    }
                    result = result * 2 + (b as u32);
                    i = i + 1;
                },
                None => {
                    return None;
                },
            }
        }
        Some(result)
    }

    /// Read an unsigned Exp-Golomb coded integer (`ue(v)`).
    pub fn read_ue(&mut self) -> (r: Option<u32>)
        requires
            old(self).wf(),
        ensures
            final(self).wf(),
            final(self).spec_data() == old(self).spec_data(),
            match spec_read_ue(old(self).spec_data(), old(self).pos()) {
                Some((v, p)) => r == Some(v) && final(self).pos() == p,
                None => r is None,
            },
            r matches Some(v) ==> v <= 0xFFFF_FFFEu32,
    {
        let ghost data = self.spec_data();
        let ghost pos0 = self.pos();
        let mut leading_zeros: u8 = 0;
        loop
            invariant
                self.wf(),
                self.spec_data() == data,
                data == old(self).spec_data(),
                pos0 == old(self).pos(),
                pos0 >= 0,
                leading_zeros <= 31,
                self.pos() == pos0 + leading_zeros,
                spec_zeros_from(data, pos0) == leading_zeros + spec_zeros_from(data, self.pos()),
                pos0 + leading_zeros <= data.len() * 8,
            decreases data.len() * 8 - self.pos(),
        {
            match self.read_bit() {
                None => {
                    proof {
                        assert(spec_zeros_from(data, self.pos()) == 0);
                        assert(pos0 + spec_zeros_from(data, pos0) >= data.len() * 8);
                    }
                    return None;
                },
                Some(b) => {
                    if b == 1 {
                        proof {
                            assert(spec_zeros_from(data, self.pos() - 1) == 0);
                            assert(spec_zeros_from(data, pos0) == leading_zeros);
                        }
                        if leading_zeros == 0 {
                            return Some(0);
                        }
                        let suffix = match self.read_bits(leading_zeros) {
                            Some(s) => s,
                            None => {
                                return None;
                            },
                        };
                        proof {
                            lemma_bits_value_bound(
                                data,
                                pos0 + leading_zeros + 1,
                                leading_zeros as nat,
                            );
                            lemma_pow2_strictly_increases(leading_zeros as nat, 32);
                            lemma2_to64();
                            vstd::bits::lemma_u32_shl_is_mul(1u32, leading_zeros as u32);
                        }
                        let value = (1u32 << (leading_zeros as u32)) - 1 + suffix;
                        return Some(value);
                    }
                    proof {
                        assert(spec_zeros_from(data, self.pos() - 1) == 1 + spec_zeros_from(
                            data,
                            self.pos(),
                        ));
                    }
                    leading_zeros = leading_zeros + 1;
                    if leading_zeros > 31 {
                        proof {
                            assert(spec_zeros_from(data, pos0) >= 32);
                        }
                        return None;
                    }
                },
            }
        }
    }

    /// Read a signed Exp-Golomb coded integer (`se(v)`).
    pub fn read_se(&mut self) -> (r: Option<i32>)
        requires
            old(self).wf(),
        ensures
            final(self).wf(),
            final(self).spec_data() == old(self).spec_data(),
            match spec_read_se(old(self).spec_data(), old(self).pos()) {
                Some((v, p)) => r == Some(v) && final(self).pos() == p,
                None => r is None,
            },
    {
        let ue = match self.read_ue() {
            Some(v) => v,
            None => {
                return None;
            },
        };
        let value = ((ue + 1) / 2) as i32;
        if ue % 2 == 0 {
            Some(-value)
        } else {
            Some(value)
        }
    }
}

} // verus!
