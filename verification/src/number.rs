//! Numbers as the engine holds them: IEEE 754 double precision, carried
//! here by their 64 bits.
//!
//! Every native number crosses into the engine as a double and comes back
//! as one. The way back to an integer type is lossy on purpose: the
//! fraction is dropped, and a number beyond the type's range becomes the
//! nearest end of the range.

use vstd::prelude::*;
use vstd::arithmetic::div_mod::{
    lemma_basic_div,
    lemma_div_by_multiple,
    lemma_div_denominator,
    lemma_fundamental_div_mod,
    lemma_fundamental_div_mod_converse,
};
use vstd::arithmetic::power2::{
    lemma2_to64,
    lemma2_to64_rest,
    lemma_pow2_adds,
    lemma_pow2_pos,
    lemma_pow2_strictly_increases,
    lemma_pow2_unfold,
    pow2,
};

verus! {

/// Two to the fifty-second: the weight of the lowest exponent bit, and the
/// implicit leading bit of a normal significand.
pub const TWO_52: u64 = 0x10_0000_0000_0000;

/// Two to the fifty-third: the first integer whose successor no double
/// holds.
pub const TWO_53: u64 = 0x20_0000_0000_0000;

/// Two to the sixty-third: the weight of the sign bit.
pub const TWO_63: u64 = 0x8000_0000_0000_0000;

/// A double-precision number, held by its bits.
#[derive(Clone, Copy, Debug, PartialEq, Eq, Structural)]
pub struct Number {
    bits: u64,
}

impl View for Number {
    type V = u64;

    closed spec fn view(&self) -> u64 {
        self.bits
    }
}

/// Whether the sign bit is set.
pub open spec fn negative(bits: u64) -> bool {
    bits >= TWO_63
}

/// The eleven exponent bits, as a number.
pub open spec fn exponent(bits: u64) -> nat {
    ((bits / TWO_52) % 2048) as nat
}

/// The fifty-two fraction bits, as a number.
pub open spec fn fraction(bits: u64) -> nat {
    (bits % TWO_52) as nat
}

/// Whether the bits are those of a NaN: all exponent bits set and some
/// fraction bit set.
pub open spec fn bits_are_nan(bits: u64) -> bool {
    exponent(bits) == 2047 && fraction(bits) != 0
}

/// Whether the bits are those of a zero of either sign.
pub open spec fn bits_are_zero(bits: u64) -> bool {
    exponent(bits) == 0 && fraction(bits) == 0
}

/// Equality of two doubles as IEEE 754 defines it: a NaN equals nothing, the
/// two zeros equal each other, and any other number equals only itself.
pub open spec fn bits_equal(a: u64, b: u64) -> bool {
    !bits_are_nan(a) && !bits_are_nan(b) && (a == b || (bits_are_zero(a) && bits_are_zero(b)))
}

/// The significand: the fraction bits, with the implicit leading bit in
/// front unless the number is subnormal.
pub open spec fn significand(bits: u64) -> nat {
    if exponent(bits) == 0 {
        fraction(bits)
    } else {
        TWO_52 as nat + fraction(bits)
    }
}

/// The power of two that the significand is scaled by: the absolute value
/// of the number is `significand * 2^scale`.
pub open spec fn scale(bits: u64) -> int {
    if exponent(bits) == 0 {
        -1074
    } else {
        exponent(bits) - 1075
    }
}

/// The absolute value of the number without its fraction. An infinity
/// counts as two to the 1024th, which is beyond every double and every
/// integer type.
pub open spec fn magnitude(bits: u64) -> nat {
    if scale(bits) >= 0 {
        significand(bits) * pow2(scale(bits) as nat)
    } else {
        significand(bits) / pow2((-scale(bits)) as nat)
    }
}

/// The number without its fraction, rounded towards zero. A NaN counts as
/// zero.
pub open spec fn integer_part(bits: u64) -> int {
    if bits_are_nan(bits) {
        0
    } else if negative(bits) {
        -(magnitude(bits) as int)
    } else {
        magnitude(bits) as int
    }
}

/// `v` if it lies between `low` and `high`, else the nearer of the two.
pub open spec fn clamp(v: int, low: int, high: int) -> int {
    if v < low {
        low
    } else if v > high {
        high
    } else {
        v
    }
}

/// The position of the highest bit that is set: the `p` with
/// `2^p <= m < 2^(p+1)`. Zero for zero.
pub open spec fn top_bit(m: nat) -> nat
    decreases m,
{
    if m <= 1 {
        0
    } else {
        1 + top_bit(m / 2)
    }
}

/// `m` without its lowest `shift` bits, rounded to the nearest: up if what
/// is dropped is more than half of the lowest bit kept, down if it is less,
/// and to the even neighbour if it is exactly half.
pub open spec fn rounded(m: nat, shift: nat) -> nat {
    let kept = m / pow2(shift);
    let dropped = m % pow2(shift);
    let half = pow2((shift - 1) as nat);
    if dropped > half || (dropped == half && kept % 2 == 1) {
        kept + 1
    } else {
        kept
    }
}

/// The bits of the double that a natural number becomes: the number itself
/// if it has no more than fifty-three significant bits, else the nearest
/// double, by [`rounded`].
pub open spec fn double_of_nat(m: nat) -> nat {
    if m == 0 {
        0
    } else {
        let p = top_bit(m);
        let kept = if p <= 52 {
            m * pow2((52 - p) as nat)
        } else {
            rounded(m, (p - 52) as nat)
        };
        ((1023 + p) * TWO_52 + (kept - TWO_52)) as nat
    }
}

/// The bits of the double that an integer becomes: those of its absolute
/// value, with the sign bit set if it is negative.
pub open spec fn double_of_int(x: int) -> nat {
    if x < 0 {
        TWO_63 as nat + double_of_nat((-x) as nat)
    } else {
        double_of_nat(x as nat)
    }
}

/// The highest set bit of a positive number bounds it from both sides.
pub proof fn lemma_top_bit_bounds(m: nat)
    requires
        m >= 1,
    ensures
        pow2(top_bit(m)) <= m < pow2(top_bit(m) + 1),
    decreases m,
{
    lemma2_to64();
    if m > 1 {
        lemma_top_bit_bounds(m / 2);
        lemma_pow2_unfold(top_bit(m));
        lemma_pow2_unfold(top_bit(m) + 1);
    }
}

/// A number between two neighbouring powers of two has its highest set bit
/// at the lower one.
pub proof fn lemma_top_bit_is(m: nat, p: nat)
    requires
        pow2(p) <= m < pow2(p + 1),
    ensures
        top_bit(m) == p,
    decreases p,
{
    lemma2_to64();
    if p > 0 {
        lemma_pow2_unfold(p);
        lemma_pow2_unfold(p + 1);
        lemma_top_bit_is(m / 2, (p - 1) as nat);
    }
}

/// A natural number below two to the fifty-third becomes a double that is
/// that number exactly: it is no NaN, it is not negative, and its integer
/// part is the number.
pub proof fn lemma_double_of_nat_exact(m: nat)
    requires
        m < TWO_53,
    ensures
        double_of_nat(m) < TWO_63,
        !bits_are_nan(double_of_nat(m) as u64),
        !negative(double_of_nat(m) as u64),
        magnitude(double_of_nat(m) as u64) == m,
        integer_part(double_of_nat(m) as u64) == m,
{
    lemma2_to64();
    lemma2_to64_rest();
    if m == 0 {
        lemma_pow2_pos(1074);
        lemma_basic_div(0, pow2(1074) as int);
    } else {
        lemma_top_bit_bounds(m);
        let p = top_bit(m);
        if p >= 53 {
            if p > 53 {
                lemma_pow2_strictly_increases(53, p);
            }
            assert(false);
        }
        let k = (52 - p) as nat;
        let kept = m * pow2(k);
        lemma_pow2_adds(p, k);
        lemma_pow2_adds(p + 1, k);
        lemma_pow2_pos(k);
        assert(TWO_52 <= kept) by (nonlinear_arith)
            requires
                kept == m * pow2(k),
                pow2(p) <= m,
                pow2(p) * pow2(k) == TWO_52,
                pow2(k) > 0,
        ;
        assert(kept < TWO_53) by (nonlinear_arith)
            requires
                kept == m * pow2(k),
                m < pow2(p + 1),
                pow2(p + 1) * pow2(k) == TWO_53,
                pow2(k) > 0,
        ;
        let b = (1023 + p) * TWO_52 + (kept - TWO_52);
        assert(double_of_nat(m) == b);
        lemma_fundamental_div_mod_converse(
            b as int,
            TWO_52 as int,
            (1023 + p) as int,
            (kept - TWO_52) as int,
        );
        assert(exponent(b as u64) == 1023 + p);
        assert(fraction(b as u64) == kept - TWO_52);
        assert(significand(b as u64) == kept);
        assert(scale(b as u64) == -(k as int));
        if k == 0 {
            assert(kept == m) by (nonlinear_arith)
                requires
                    kept == m * pow2(k),
                    pow2(k) == 1,
            ;
            assert(kept * pow2(0) == kept) by (nonlinear_arith)
                requires
                    pow2(0) == 1,
            ;
        } else {
            lemma_div_by_multiple(m as int, pow2(k) as int);
        }
    }
}

/// An integer whose absolute value is below two to the fifty-third, made a
/// double, is that integer exactly. So it comes back unchanged as any
/// integer type that holds it, and clamped to the range of one that does
/// not: narrowing cuts, it never wraps.
pub proof fn lemma_integer_round_trips(x: int)
    requires
        -(TWO_53 as int) < x < TWO_53,
    ensures
        double_of_int(x) <= u64::MAX,
        integer_part(double_of_int(x) as u64) == x,
        forall|low: int, high: int|
            clamp(integer_part(double_of_int(x) as u64), low, high) == clamp(x, low, high),
{
    if x >= 0 {
        lemma_double_of_nat_exact(x as nat);
    } else {
        let m = (-x) as nat;
        lemma_double_of_nat_exact(m);
        let b = double_of_nat(m) as u64;
        let signed = (TWO_63 + b) as u64;
        assert(double_of_int(x) == signed);
        assert(exponent(signed) == exponent(b));
        assert(fraction(signed) == fraction(b));
        assert(magnitude(signed) == magnitude(b));
    }
}

impl Number {
    /// The number with the given bits.
    pub fn from_bits(bits: u64) -> (n: Number)
        ensures
            n@ == bits,
    {
        Number { bits }
    }

    /// The bits of the number.
    pub fn bits(&self) -> (bits: u64)
        ensures
            bits == self@,
    {
        self.bits
    }

    /// Whether the number is a NaN.
    pub fn is_nan(&self) -> (b: bool)
        ensures
            b == bits_are_nan(self@),
    {
        (self.bits / TWO_52) % 2048 == 2047 && self.bits % TWO_52 != 0
    }

    /// Whether the number is zero, of either sign.
    pub fn is_zero(&self) -> (b: bool)
        ensures
            b == bits_are_zero(self@),
    {
        (self.bits / TWO_52) % 2048 == 0 && self.bits % TWO_52 == 0
    }

    /// Whether the sign bit is set.
    pub fn is_negative(&self) -> (b: bool)
        ensures
            b == negative(self@),
    {
        self.bits >= TWO_63
    }

    /// Whether two numbers are equal as numbers.
    pub fn same(&self, other: &Number) -> (b: bool)
        ensures
            b == bits_equal(self@, other@),
    {
        !self.is_nan() && !other.is_nan() && (self.bits == other.bits || (self.is_zero()
            && other.is_zero()))
    }

    /// The double that an unsigned 64-bit integer becomes: the integer
    /// itself up to two to the fifty-third, beyond that the nearest double.
    pub fn from_u64(x: u64) -> (n: Number)
        ensures
            n@ == double_of_nat(x as nat),
            n@ < TWO_63,
    {
        proof {
            lemma2_to64();
            lemma2_to64_rest();
        }
        if x == 0 {
            return Number { bits: 0 };
        }
        if x < TWO_53 {
            let mut kept: u64 = x;
            let mut k: u64 = 0;
            while kept < TWO_52
                invariant
                    0 < kept < TWO_53,
                    kept as nat == x as nat * pow2(k as nat),
                    kept >= pow2(k as nat),
                    k <= 52,
                    x >= 1,
                    pow2(52) == TWO_52,
                decreases 52 - k,
            {
                proof {
                    if k >= 52 {
                        if k > 52 {
                            lemma_pow2_strictly_increases(52, k as nat);
                        }
                    }
                    lemma_pow2_unfold((k + 1) as nat);
                    assert(x as nat * pow2(k as nat) * 2 == x as nat * (2 * pow2(k as nat)))
                        by (nonlinear_arith);
                }
                kept = kept * 2;
                k += 1;
            }
            let p: u64 = 52 - k;
            proof {
                lemma_pow2_adds(p as nat, k as nat);
                lemma_pow2_adds((p + 1) as nat, k as nat);
                lemma_pow2_pos(k as nat);
                assert(pow2(p as nat) <= x) by (nonlinear_arith)
                    requires
                        pow2(p as nat) * pow2(k as nat) <= x as nat * pow2(k as nat),
                        pow2(k as nat) > 0,
                ;
                assert(x < pow2((p + 1) as nat)) by (nonlinear_arith)
                    requires
                        x as nat * pow2(k as nat) < pow2((p + 1) as nat) * pow2(k as nat),
                        pow2(k as nat) > 0,
                ;
                lemma_top_bit_is(x as nat, p as nat);
            }
            Number { bits: (1023 + p) * TWO_52 + (kept - TWO_52) }
        } else {
            let mut kept: u64 = x;
            let mut unit: u64 = 1;
            let mut shift: u64 = 0;
            while kept >= TWO_53
                invariant
                    kept as nat == x as nat / pow2(shift as nat),
                    unit as nat == pow2(shift as nat),
                    kept >= TWO_52,
                    shift <= 11,
                    unit as nat * kept as nat <= x,
                    pow2(0) == 1,
                decreases kept,
            {
                proof {
                    lemma_pow2_unfold((shift + 1) as nat);
                    lemma_pow2_pos(shift as nat);
                    lemma_div_denominator(x as int, pow2(shift as nat) as int, 2);
                    assert(pow2(shift as nat) * 2 == 2 * pow2(shift as nat)) by (nonlinear_arith);
                    assert(unit as nat * 2 * (kept as nat / 2) <= unit as nat * kept as nat)
                        by (nonlinear_arith);
                    if shift >= 11 {
                        lemma2_to64();
                        assert(unit as nat * kept as nat >= 2048 * 0x20_0000_0000_0000)
                            by (nonlinear_arith)
                            requires
                                unit >= 2048,
                                kept >= 0x20_0000_0000_0000,
                        ;
                    }
                    assert(unit as nat * 2 <= u64::MAX) by (nonlinear_arith)
                        requires
                            unit as nat * kept as nat <= u64::MAX,
                            kept >= 2,
                    ;
                }
                kept = kept / 2;
                unit = unit * 2;
                shift += 1;
            }
            assert(shift >= 1);
            assert(kept as nat * unit as nat == unit as nat * kept as nat) by (nonlinear_arith);
            let dropped: u64 = x - kept * unit;
            let half: u64 = unit / 2;
            let up = dropped > half || (dropped == half && kept % 2 == 1);
            let p: u64 = 52 + shift;
            proof {
                lemma_pow2_pos(shift as nat);
                lemma_fundamental_div_mod(x as int, unit as int);
                assert(unit as nat * kept as nat == kept as nat * unit as nat) by (nonlinear_arith);
                assert(dropped as nat == x as nat % pow2(shift as nat));
                lemma_pow2_unfold(shift as nat);
                assert(half as nat == pow2((shift - 1) as nat));
                lemma_pow2_adds(52, shift as nat);
                lemma_pow2_adds(53, shift as nat);
                assert(pow2(p as nat) <= x) by (nonlinear_arith)
                    requires
                        pow2(p as nat) == 0x10_0000_0000_0000 * unit as nat,
                        kept >= 0x10_0000_0000_0000,
                        unit as nat * kept as nat <= x,
                ;
                assert(x < pow2((p + 1) as nat)) by (nonlinear_arith)
                    requires
                        pow2((p + 1) as nat) == 0x20_0000_0000_0000 * unit as nat,
                        kept < 0x20_0000_0000_0000,
                        x == unit as nat * kept as nat + dropped as nat,
                        dropped < unit,
                ;
                lemma_top_bit_is(x as nat, p as nat);
            }
            let kept: u64 = if up {
                kept + 1
            } else {
                kept
            };
            Number { bits: (1023 + p) * TWO_52 + (kept - TWO_52) }
        }
    }

    /// The double that a signed 64-bit integer becomes: the integer itself
    /// where its absolute value is at most two to the fifty-third, beyond
    /// that the nearest double.
    pub fn from_i64(x: i64) -> (n: Number)
        ensures
            n@ == double_of_int(x as int),
    {
        if x < 0 {
            let m: u64 = if x == i64::MIN {
                TWO_63
            } else {
                (-x) as u64
            };
            Number { bits: TWO_63 + Number::from_u64(m).bits }
        } else {
            Number::from_u64(x as u64)
        }
    }

    /// The double that a signed 32-bit integer is.
    pub fn from_i32(x: i32) -> (n: Number)
        ensures
            n@ == double_of_int(x as int),
    {
        Number::from_i64(x as i64)
    }

    /// The double that a signed 16-bit integer is.
    pub fn from_i16(x: i16) -> (n: Number)
        ensures
            n@ == double_of_int(x as int),
    {
        Number::from_i64(x as i64)
    }

    /// The double that a signed 8-bit integer is.
    pub fn from_i8(x: i8) -> (n: Number)
        ensures
            n@ == double_of_int(x as int),
    {
        Number::from_i64(x as i64)
    }

    /// The double that an unsigned 32-bit integer is.
    pub fn from_u32(x: u32) -> (n: Number)
        ensures
            n@ == double_of_int(x as int),
    {
        Number::from_u64(x as u64)
    }

    /// The double that an unsigned 16-bit integer is.
    pub fn from_u16(x: u16) -> (n: Number)
        ensures
            n@ == double_of_int(x as int),
    {
        Number::from_u64(x as u64)
    }

    /// The double that an unsigned 8-bit integer is.
    pub fn from_u8(x: u8) -> (n: Number)
        ensures
            n@ == double_of_int(x as int),
    {
        Number::from_u64(x as u64)
    }

    /// The double that an unsigned integer of pointer width becomes.
    pub fn from_usize(x: usize) -> (n: Number)
        ensures
            n@ == double_of_int(x as int),
    {
        Number::from_u64(x as u64)
    }

    /// The double that a signed integer of pointer width becomes.
    pub fn from_isize(x: isize) -> (n: Number)
        ensures
            n@ == double_of_int(x as int),
    {
        Number::from_i64(x as i64)
    }

    /// The absolute value without its fraction, as far as it fits: a
    /// magnitude beyond the 64 bits is cut down to the largest value they
    /// hold.
    fn magnitude_capped(&self) -> (m: u64)
        ensures
            m as nat == if magnitude(self@) <= u64::MAX {
                magnitude(self@)
            } else {
                u64::MAX as nat
            },
    {
        let e: u64 = (self.bits / TWO_52) % 2048;
        let f: u64 = self.bits % TWO_52;
        proof {
            lemma2_to64();
            lemma2_to64_rest();
        }
        if e == 0 {
            proof {
                lemma_pow2_strictly_increases(52, 1074);
                lemma_basic_div(f as int, pow2(1074) as int);
            }
            return 0;
        }
        let sig: u64 = TWO_52 + f;
        if e >= 1075 {
            let up: u64 = e - 1075;
            if up >= 12 {
                proof {
                    if up > 12 {
                        lemma_pow2_strictly_increases(12, up as nat);
                    }
                    assert(sig as nat * pow2(up as nat) > u64::MAX) by (nonlinear_arith)
                        requires
                            sig >= 0x10_0000_0000_0000,
                            pow2(up as nat) >= 4096,
                    ;
                }
                return u64::MAX;
            }
            let mut m: u64 = sig;
            let mut i: u64 = 0;
            while i < up
                invariant
                    i <= up,
                    up <= 11,
                    sig < TWO_53,
                    m as nat == sig as nat * pow2(i as nat),
                    pow2(0) == 1,
                decreases up - i,
            {
                proof {
                    lemma_pow2_unfold((i + 1) as nat);
                    if i < 10 {
                        lemma_pow2_strictly_increases(i as nat, 10);
                    }
                    lemma2_to64();
                    assert(sig as nat * pow2(i as nat) <= 0x1f_ffff_ffff_ffff * 1024)
                        by (nonlinear_arith)
                        requires
                            sig <= 0x1f_ffff_ffff_ffff,
                            pow2(i as nat) <= 1024,
                    ;
                    assert(sig as nat * pow2(i as nat) * 2 == sig as nat * (2 * pow2(i as nat)))
                        by (nonlinear_arith);
                }
                m = m * 2;
                i += 1;
            }
            m
        } else {
            let down: u64 = 1075 - e;
            if down >= 53 {
                proof {
                    if down > 53 {
                        lemma_pow2_strictly_increases(53, down as nat);
                    }
                    lemma_basic_div(sig as int, pow2(down as nat) as int);
                }
                return 0;
            }
            let mut m: u64 = sig;
            let mut i: u64 = 0;
            while i < down
                invariant
                    i <= down,
                    m as nat == sig as nat / pow2(i as nat),
                    pow2(0) == 1,
                decreases down - i,
            {
                proof {
                    lemma_pow2_unfold((i + 1) as nat);
                    lemma_pow2_pos(i as nat);
                    lemma_div_denominator(sig as int, pow2(i as nat) as int, 2);
                    assert(pow2(i as nat) * 2 == 2 * pow2(i as nat)) by (nonlinear_arith);
                }
                m = m / 2;
                i += 1;
            }
            m
        }
    }

    /// The number as an unsigned 64-bit integer: without its fraction, zero
    /// if it is negative or a NaN, and the largest integer of the type if it
    /// is beyond that.
    pub fn to_u64(&self) -> (r: u64)
        ensures
            r == clamp(integer_part(self@), 0, u64::MAX as int),
    {
        if self.is_nan() || self.is_negative() {
            0
        } else {
            self.magnitude_capped()
        }
    }

    /// The number as a signed 64-bit integer: without its fraction, zero if
    /// it is a NaN, and the nearest integer of the type if it is beyond the
    /// type's range.
    pub fn to_i64(&self) -> (r: i64)
        ensures
            r == clamp(integer_part(self@), i64::MIN as int, i64::MAX as int),
    {
        if self.is_nan() {
            return 0;
        }
        let m = self.magnitude_capped();
        if self.is_negative() {
            if m >= TWO_63 {
                i64::MIN
            } else {
                -(m as i64)
            }
        } else {
            if m >= TWO_63 {
                i64::MAX
            } else {
                m as i64
            }
        }
    }

    /// The number as a signed 32-bit integer, cut and clamped like
    /// [`Number::to_i64`].
    pub fn to_i32(&self) -> (r: i32)
        ensures
            r == clamp(integer_part(self@), i32::MIN as int, i32::MAX as int),
    {
        let v = self.to_i64();
        if v < -0x8000_0000 {
            i32::MIN
        } else if v > 0x7fff_ffff {
            i32::MAX
        } else {
            v as i32
        }
    }

    /// The number as a signed 16-bit integer, cut and clamped like
    /// [`Number::to_i64`].
    pub fn to_i16(&self) -> (r: i16)
        ensures
            r == clamp(integer_part(self@), i16::MIN as int, i16::MAX as int),
    {
        let v = self.to_i64();
        if v < -0x8000 {
            i16::MIN
        } else if v > 0x7fff {
            i16::MAX
        } else {
            v as i16
        }
    }

    /// The number as a signed 8-bit integer, cut and clamped like
    /// [`Number::to_i64`].
    pub fn to_i8(&self) -> (r: i8)
        ensures
            r == clamp(integer_part(self@), i8::MIN as int, i8::MAX as int),
    {
        let v = self.to_i64();
        if v < -0x80 {
            i8::MIN
        } else if v > 0x7f {
            i8::MAX
        } else {
            v as i8
        }
    }

    /// The number as an unsigned 32-bit integer, cut and clamped like
    /// [`Number::to_u64`].
    pub fn to_u32(&self) -> (r: u32)
        ensures
            r == clamp(integer_part(self@), 0, u32::MAX as int),
    {
        let v = self.to_u64();
        if v > 0xffff_ffff {
            u32::MAX
        } else {
            v as u32
        }
    }

    /// The number as an unsigned 16-bit integer, cut and clamped like
    /// [`Number::to_u64`].
    pub fn to_u16(&self) -> (r: u16)
        ensures
            r == clamp(integer_part(self@), 0, u16::MAX as int),
    {
        let v = self.to_u64();
        if v > 0xffff {
            u16::MAX
        } else {
            v as u16
        }
    }

    /// The number as an unsigned 8-bit integer, cut and clamped like
    /// [`Number::to_u64`].
    pub fn to_u8(&self) -> (r: u8)
        ensures
            r == clamp(integer_part(self@), 0, u8::MAX as int),
    {
        let v = self.to_u64();
        if v > 0xff {
            u8::MAX
        } else {
            v as u8
        }
    }

    /// The number as an unsigned integer of pointer width, cut and clamped
    /// like [`Number::to_u64`].
    pub fn to_usize(&self) -> (r: usize)
        ensures
            r == clamp(integer_part(self@), 0, usize::MAX as int),
    {
        let v = self.to_u64();
        if v > usize::MAX as u64 {
            usize::MAX
        } else {
            v as usize
        }
    }

    /// The number as a signed integer of pointer width, cut and clamped
    /// like [`Number::to_i64`].
    pub fn to_isize(&self) -> (r: isize)
        ensures
            r == clamp(integer_part(self@), isize::MIN as int, isize::MAX as int),
    {
        let v = self.to_i64();
        if v < isize::MIN as i64 {
            isize::MIN
        } else if v > isize::MAX as i64 {
            isize::MAX
        } else {
            v as isize
        }
    }
}

} // verus!
