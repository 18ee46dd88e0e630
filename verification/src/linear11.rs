//! The PMBus Linear11 number format: a 16-bit word that packs a signed
//! 5-bit exponent (bits 11 to 15) and a signed 11-bit mantissa (bits 0 to 10),
//! both in two's complement. The word stands for `mantissa * 2^exponent`.

use vstd::prelude::*;
use vstd::arithmetic::power2::pow2;
use vstd::arithmetic::power2::lemma2_to64;
use vstd::arithmetic::power2::lemma_pow2_adds;
use vstd::bits::lemma_u32_shl_is_mul;
use vstd::bits::lemma_u64_shl_is_mul;

verus! {

/// The exponent that a Linear11 word carries, between -16 and 15.
pub open spec fn exponent_of(data: u16) -> int {
    let e = data as int / 2048;
    if e > 15 {
        e - 32
    } else {
        e
    }
}

/// The mantissa that a Linear11 word carries, between -1024 and 1023.
pub open spec fn mantissa_of(data: u16) -> int {
    let m = data as int % 2048;
    if m > 1023 {
        m - 2048
    } else {
        m
    }
}

/// A decoded Linear11 word. Its value is the fraction
/// `numerator() / denominator()`, which is `mantissa * 2^exponent`.
#[derive(Clone, Copy, Debug, PartialEq, Eq, Structural)]
pub struct Linear11 {
    /// The mantissa, between -1024 and 1023.
    pub mantissa: i16,
    /// The exponent of two, between -16 and 15.
    pub exponent: i8,
}

/// The Linear11 word `data`, decoded.
pub open spec fn linear11_of(data: u16) -> Linear11 {
    Linear11 { mantissa: mantissa_of(data) as i16, exponent: exponent_of(data) as i8 }
}

/// A decoded word holds the word's mantissa and exponent, each in its
/// range.
pub proof fn lemma_linear11_of(data: u16)
    ensures
        linear11_of(data).mantissa == mantissa_of(data),
        linear11_of(data).exponent == exponent_of(data),
        linear11_of(data).wf(),
        data == 0 ==> linear11_of(data) == (Linear11 { mantissa: 0, exponent: 0 }),
{
}

/// A word is told by its mantissa and exponent: two words that decode to
/// the same pair are the same word.
pub proof fn lemma_linear11_of_is_injective(a: u16, b: u16)
    requires
        linear11_of(a) == linear11_of(b),
    ensures
        a == b,
{
    lemma_linear11_of(a);
    lemma_linear11_of(b);
}

impl Linear11 {
    /// The ranges that the two fields of a decoded word lie in.
    pub open spec fn wf(self) -> bool {
        &&& -1024 <= self.mantissa <= 1023
        &&& -16 <= self.exponent <= 15
    }

    /// Numerator of the value: the mantissa, scaled up where the exponent
    /// is not negative.
    pub open spec fn spec_numerator(self) -> int {
        if self.exponent >= 0 {
            self.mantissa * pow2(self.exponent as nat)
        } else {
            self.mantissa as int
        }
    }

    /// Denominator of the value: one, or the power of two that a negative
    /// exponent divides by.
    pub open spec fn spec_denominator(self) -> int {
        if self.exponent >= 0 {
            1
        } else {
            pow2((-self.exponent) as nat) as int
        }
    }

    /// The value in units of 1/65536, which is a whole number for every
    /// well-formed word.
    pub open spec fn spec_scaled(self) -> int {
        self.mantissa * pow2((self.exponent + 16) as nat)
    }
}

/// The value in units of 1/65536 is the fraction, taken 65536 times.
pub proof fn lemma_scaled_is_the_fraction(value: Linear11)
    requires
        value.wf(),
    ensures
        value.spec_denominator() > 0,
        value.spec_scaled() * value.spec_denominator() == value.spec_numerator() * 65536,
{
    lemma2_to64();
    let m = value.mantissa as int;
    if value.exponent >= 0 {
        let e = value.exponent as nat;
        lemma_pow2_adds(e, 16);
        assert(m * (pow2(e) * pow2(16)) == (m * pow2(e)) * 65536) by (nonlinear_arith)
            requires
                pow2(16) == 65536,
        ;
    } else {
        let up = (value.exponent + 16) as nat;
        let down = (-value.exponent) as nat;
        lemma_pow2_adds(up, down);
        assert((m * pow2(up)) * pow2(down) == m * (pow2(up) * pow2(down))) by (nonlinear_arith);
    }
}

impl Linear11 {
    /// Numerator of the value.
    pub fn numerator(&self) -> (n: i32)
        requires
            self.wf(),
        ensures
            n == self.spec_numerator(),
    {
        if self.exponent >= 0 {
            let factor: u32 = self.power_of_two();
            assert(-1024 * 32768 <= self.mantissa * factor <= 1023 * 32768) by (nonlinear_arith)
                requires
                    -1024 <= self.mantissa <= 1023,
                    1 <= factor <= 32768,
            ;
            (self.mantissa as i32) * (factor as i32)
        } else {
            self.mantissa as i32
        }
    }

    /// Denominator of the value.
    pub fn denominator(&self) -> (d: u32)
        requires
            self.wf(),
        ensures
            d == self.spec_denominator(),
            d >= 1,
    {
        if self.exponent >= 0 {
            1
        } else {
            self.power_of_two()
        }
    }

    /// Two to the power of the exponent's absolute value.
    fn power_of_two(&self) -> (p: u32)
        requires
            self.wf(),
        ensures
            self.exponent >= 0 ==> p == pow2(self.exponent as nat),
            self.exponent < 0 ==> p == pow2((-self.exponent) as nat),
            1 <= p <= 65536,
            self.exponent >= 0 ==> p <= 32768,
    {
        let shift: u32 = if self.exponent >= 0 {
            self.exponent as u32
        } else {
            (-self.exponent) as u32
        };
        proof {
            lemma2_to64();
            lemma_u32_shl_is_mul(1u32, shift);
        }
        1u32 << shift
    }

    /// The value in units of 1/65536.
    pub fn scaled(&self) -> (v: i64)
        requires
            self.wf(),
        ensures
            v == self.spec_scaled(),
    {
        let shift: u64 = (self.exponent + 16) as u64;
        proof {
            lemma2_to64();
            lemma_u64_shl_is_mul(1u64, shift);
        }
        let factor: u64 = 1u64 << shift;
        assert(-1024 * 0x8000_0000 <= self.mantissa * factor <= 1023 * 0x8000_0000)
            by (nonlinear_arith)
            requires
                -1024 <= self.mantissa <= 1023,
                1 <= factor <= 0x8000_0000,
        ;
        (self.mantissa as i64) * (factor as i64)
    }
}

/// Decodes a Linear11 word into its mantissa and exponent.
pub fn from_linear11_f(data: u16) -> (r: Linear11)
    ensures
        r == linear11_of(data),
        r.mantissa == mantissa_of(data),
        r.exponent == exponent_of(data),
        r.wf(),
{
    if data == 0 {
        return Linear11 { mantissa: 0, exponent: 0 };
    }
    let exponent_bits: u16 = (data >> 11) & 0x001F;
    let mantissa_bits: u16 = data & 0x07FF;
    assert(exponent_bits == data / 2048 && exponent_bits <= 31) by (bit_vector)
        requires
            exponent_bits == (data >> 11) & 0x001F,
    ;
    assert(mantissa_bits == data % 2048) by (bit_vector)
        requires
            mantissa_bits == data & 0x07FF,
    ;
    let exponent: i16 = if exponent_bits > 0x0F {
        let extended: u16 = exponent_bits | 0xFFE0;
        assert(extended == exponent_bits + 65504) by (bit_vector)
            requires
                extended == exponent_bits | 0xFFE0,
                0x0F < exponent_bits <= 31,
        ;
        signed(extended)
    } else {
        exponent_bits as i16
    };
    let mantissa: i16 = if mantissa_bits > 0x03FF {
        let extended: u16 = mantissa_bits | 0xF800;
        assert(extended == mantissa_bits + 63488) by (bit_vector)
            requires
                extended == mantissa_bits | 0xF800,
                0x03FF < mantissa_bits <= 0x07FF,
        ;
        signed(extended)
    } else {
        mantissa_bits as i16
    };
    Linear11 { mantissa, exponent: exponent as i8 }
}

/// Reads a 16-bit pattern as a two's-complement number.
fn signed(bits: u16) -> (v: i16)
    ensures
        bits < 0x8000 ==> v == bits,
        bits >= 0x8000 ==> v == bits - 0x10000,
{
    if bits < 0x8000 {
        bits as i16
    } else {
        let below: i16 = (bits - 0x8000) as i16;
        below - 0x4000 - 0x4000
    }
}

} // verus!
