//! Glass numbers.
//!
//! A Glass number is an IEEE 754 double. The machine carries one as its 64
//! bits and never computes with it: sums, products, comparisons and the like
//! are the caller's work. What the machine does decide by itself is written
//! here: whether a number is zero, which whole number it is (to index a
//! string, or to name a byte), and which number a length or a byte is.

use vstd::prelude::*;
use vstd::arithmetic::power2::{
    lemma2_to64, lemma2_to64_rest, lemma_pow2_adds, lemma_pow2_pos, lemma_pow2_unfold, pow2,
};
use vstd::arithmetic::div_mod::{
    lemma_div_denominator, lemma_div_multiples_vanish, lemma_fundamental_div_mod,
    lemma_fundamental_div_mod_converse,
};
use vstd::arithmetic::mul::{lemma_mul_inequality, lemma_mul_is_commutative};
use vstd::bits::{lemma_u64_shl_is_mul, lemma_u64_pow2_no_overflow};

verus! {

/// A double, as its bits: from the top one sign bit, eleven exponent bits and
/// fifty-two fraction bits.
#[derive(Clone, Copy, PartialEq, Eq, Structural, Debug)]
pub struct Number {
    pub bits: u64,
}

/// The least whole number that a double cannot tell from its successor: 2^53.
pub open spec fn exact_limit() -> nat {
    0x20_0000_0000_0000
}

/// How many of its low bits a whole number has to lose to fit a double's 53
/// significant bits.
pub open spec fn excess_bits(n: nat) -> nat
    decreases n,
{
    if n < exact_limit() {
        0
    } else {
        1 + excess_bits(n / 2)
    }
}

/// `n` rounded to a multiple of `unit`: to the nearer one, and of two equally
/// near to the even multiple.
pub open spec fn round_half_even(n: nat, unit: nat) -> nat {
    let q = n / unit;
    let r = n % unit;
    if 2 * r < unit || (2 * r == unit && q % 2 == 0) {
        q * unit
    } else {
        (q + 1) * unit
    }
}

/// The whole number that the double nearest to `n` stands for. Below 2^53
/// that is `n` itself.
pub open spec fn nearest(n: nat) -> nat {
    round_half_even(n, pow2(excess_bits(n)))
}

impl Number {
    /// Whether the sign bit is set.
    pub open spec fn negative(self) -> bool {
        self.bits >= 0x8000_0000_0000_0000
    }

    /// The exponent field.
    pub open spec fn exponent(self) -> nat {
        ((self.bits / 0x10_0000_0000_0000) % 0x800) as nat
    }

    /// The fraction field.
    pub open spec fn fraction(self) -> nat {
        (self.bits % 0x10_0000_0000_0000) as nat
    }

    /// The fraction with the leading one that a normal double implies.
    pub open spec fn significand(self) -> nat {
        0x10_0000_0000_0000 + self.fraction()
    }

    /// Zero, of either sign.
    pub open spec fn is_zero(self) -> bool {
        self.exponent() == 0 && self.fraction() == 0
    }

    /// The absolute value, where the number is a whole number: a zero, or a
    /// normal double `significand * 2^(exponent - 1075)` without a fractional
    /// part. Infinities, NaNs and subnormals are none.
    pub open spec fn magnitude(self) -> Option<nat> {
        let e = self.exponent();
        if e == 0 {
            if self.fraction() == 0 {
                Some(0)
            } else {
                None
            }
        } else if e < 1023 || e == 0x7ff {
            None
        } else if e <= 1075 {
            let unit = pow2((1075 - e) as nat);
            if self.significand() % unit == 0 {
                Some(self.significand() / unit)
            } else {
                None
            }
        } else {
            Some(self.significand() * pow2((e - 1075) as nat))
        }
    }

    /// The value, where the number is a whole number.
    pub open spec fn whole(self) -> Option<int> {
        match self.magnitude() {
            None => None,
            Some(m) => Some(if self.negative() { -(m as int) } else { m as int }),
        }
    }

    /// The index that the number names in a sequence of `len` items, or with
    /// `inclusive` in `0..=len`: it has to be a whole number in that range.
    pub open spec fn spec_index(self, len: nat, inclusive: bool) -> Option<nat> {
        match self.whole() {
            Some(v) if 0 <= v && (v < len || (inclusive && v == len)) => Some(v as nat),
            _ => None,
        }
    }

    /// The byte that the number names: it has to be a whole number from 0 to
    /// 255.
    pub open spec fn spec_byte(self) -> Option<u8> {
        match self.whole() {
            Some(v) if 0 <= v <= 255 => Some(v as u8),
            _ => None,
        }
    }

    /// The number that stands for true (1) or false (0).
    pub open spec fn spec_flag(flag: bool) -> Number {
        if flag {
            Number { bits: 0x3ff0_0000_0000_0000 }
        } else {
            Number { bits: 0 }
        }
    }

    /// The double of a whole number below 2^53, which is exact.
    pub open spec fn spec_exact(n: nat) -> Number {
        Number { bits: Self::exact_bits(n, 1075) }
    }

    /// The double nearest to a whole number.
    pub open spec fn spec_from_len(n: nat) -> Number {
        let k = excess_bits(n);
        let q = nearest(n) / pow2(k);
        if q >= exact_limit() {
            Number { bits: Self::exact_bits(q / 2, 1076 + k) }
        } else {
            Number { bits: Self::exact_bits(q, 1075 + k) }
        }
    }

    /// The bits of the positive double `n * 2^(e - 1075)`. Doubling `n`
    /// while lowering `e` keeps the value, and ends with the significand's
    /// leading one in its place.
    pub open spec fn exact_bits(n: nat, e: nat) -> u64
        decreases e,
    {
        if n == 0 || e == 0 || n >= exact_limit() {
            0
        } else if n >= 0x10_0000_0000_0000 {
            (e * 0x10_0000_0000_0000 + (n - 0x10_0000_0000_0000)) as u64
        } else {
            Self::exact_bits(2 * n, (e - 1) as nat)
        }
    }

    /// Whether the number is anything but a zero. A NaN is.
    pub fn is_nonzero(self) -> (r: bool)
        ensures
            r == !self.is_zero(),
    {
        self.bits % 0x8000_0000_0000_0000 != 0
    }

    /// The number that stands for true (1) or false (0).
    pub fn from_flag(flag: bool) -> (r: Number)
        ensures
            r == Self::spec_flag(flag),
    {
        if flag {
            Number { bits: 0x3ff0_0000_0000_0000 }
        } else {
            Number { bits: 0 }
        }
    }

    /// The whole number that this is, if it is one and at most `limit` in
    /// absolute value.
    pub fn magnitude_up_to(self, limit: u64) -> (r: Option<u64>)
        ensures
            r == (match self.magnitude() {
                Some(m) if m <= limit => Some(m as u64),
                _ => None,
            }),
    {
        let e: u64 = (self.bits / 0x10_0000_0000_0000) % 0x800;
        let fraction: u64 = self.bits % 0x10_0000_0000_0000;
        let significand: u64 = 0x10_0000_0000_0000 + fraction;
        if e == 0 {
            if fraction == 0 {
                Some(0)
            } else {
                None
            }
        } else if e < 1023 || e == 0x7ff {
            None
        } else if e <= 1075 {
            let k: u64 = 1075 - e;
            proof {
                lemma2_to64();
                lemma2_to64_rest();
                lemma_u64_pow2_no_overflow(k as nat);
                lemma_u64_shl_is_mul(1, k);
            }
            let unit: u64 = 1u64 << k;
            if significand % unit == 0 {
                let m: u64 = significand / unit;
                if m <= limit {
                    Some(m)
                } else {
                    None
                }
            } else {
                None
            }
        } else if e <= 1086 {
            let k: u64 = e - 1075;
            proof {
                lemma2_to64();
                lemma2_to64_rest();
                lemma_u64_pow2_no_overflow(k as nat);
                lemma_pow2_small(k as nat);
                lemma_mul_inequality(significand as int, 0x20_0000_0000_0000 - 1, pow2(k as nat) as int);
                lemma_mul_inequality(pow2(k as nat) as int, 0x800, 0x20_0000_0000_0000 - 1);
                lemma_mul_is_commutative(pow2(k as nat) as int, 0x20_0000_0000_0000 - 1);
                lemma_u64_shl_is_mul(significand, k);
            }
            let m: u64 = significand << k;
            if m <= limit {
                Some(m)
            } else {
                None
            }
        } else {
            proof {
                let k = (e - 1075) as nat;
                lemma2_to64();
                lemma_pow2_adds(12, (k - 12) as nat);
                lemma_pow2_pos((k - 12) as nat);
                lemma_mul_inequality(1, pow2((k - 12) as nat) as int, 0x1000);
                lemma_mul_is_commutative(pow2((k - 12) as nat) as int, 0x1000);
                lemma_mul_inequality(0x1000, pow2(k) as int, significand as int);
                lemma_mul_is_commutative(significand as int, pow2(k) as int);
                lemma_mul_inequality(0x10_0000_0000_0000, significand as int, 0x1000);
            }
            None
        }
    }

    /// The index that the number names in a sequence of `len` items, or with
    /// `inclusive` in `0..=len`.
    pub fn to_index(self, len: usize, inclusive: bool) -> (r: Option<usize>)
        ensures
            r == (match self.spec_index(len as nat, inclusive) {
                Some(i) => Some(i as usize),
                None => None,
            }),
    {
        if len == 0 && !inclusive {
            return None;
        }
        let limit: usize = if inclusive { len } else { len - 1 };
        match self.magnitude_up_to(limit as u64) {
            Some(m) => {
                if m == 0 || self.bits < 0x8000_0000_0000_0000 {
                    Some(m as usize)
                } else {
                    None
                }
            },
            None => None,
        }
    }

    /// The byte that the number names.
    pub fn to_byte(self) -> (r: Option<u8>)
        ensures
            r == self.spec_byte(),
    {
        match self.magnitude_up_to(255) {
            Some(m) => {
                if m == 0 || self.bits < 0x8000_0000_0000_0000 {
                    Some(m as u8)
                } else {
                    None
                }
            },
            None => None,
        }
    }

    /// The double of a whole number below 2^53.
    pub fn exact(n: u64) -> (r: Number)
        requires
            n < exact_limit(),
        ensures
            r == Self::spec_exact(n as nat),
    {
        if n == 0 {
            return Number { bits: 0 };
        }
        let mut m: u64 = n;
        let mut e: u64 = 1075;
        proof {
            lemma2_to64();
        }
        while m < 0x10_0000_0000_0000
            invariant
                0 < m < exact_limit(),
                1023 <= e <= 1075,
                pow2((1075 - e) as nat) <= m,
                Self::exact_bits(n as nat, 1075) == Self::exact_bits(m as nat, e as nat),
            decreases e,
        {
            proof {
                lemma2_to64_rest();
                lemma_pow2_unfold((1076 - e) as nat);
            }
            m = m * 2;
            e = e - 1;
        }
        Number { bits: e * 0x10_0000_0000_0000 + (m - 0x10_0000_0000_0000) }
    }

    /// The number of a length: the double nearest to it.
    pub fn from_len(n: usize) -> (r: Number)
        ensures
            r == Self::spec_from_len(n as nat),
    {
        let whole: u64 = n as u64;
        proof {
            lemma2_to64();
        }
        if whole < 0x20_0000_0000_0000 {
            assert(nearest(whole as nat) == whole);
            return Self::exact(whole);
        }
        let mut k: u64 = 0;
        let mut q: u64 = whole;
        while q >= 0x20_0000_0000_0000
            invariant
                k <= 11,
                q as nat == whole as nat / pow2(k as nat),
                q as nat * pow2(k as nat) <= whole,
                excess_bits(whole as nat) == k + excess_bits(q as nat),
                q >= 0x10_0000_0000_0000,
            decreases q,
        {
            proof {
                lemma_pow2_unfold((k + 1) as nat);
                lemma_pow2_pos(k as nat);
                lemma_div_denominator(whole as int, pow2(k as nat) as int, 2);
                lemma_halving_bound(q as nat, pow2(k as nat), whole as nat, k as nat);
            }
            q = q / 2;
            k = k + 1;
        }
        proof {
            lemma_pow2_pos(k as nat);
            lemma_u64_pow2_no_overflow(k as nat);
            lemma_u64_shl_is_mul(1, k);
            lemma_pow2_small(k as nat);
            lemma_fundamental_div_mod(whole as int, pow2(k as nat) as int);
        }
        let unit: u64 = 1u64 << k;
        let rest: u64 = whole % unit;
        let up: bool = 2 * rest > unit || (2 * rest == unit && q % 2 == 1);
        let rounded: u64 = if up { q + 1 } else { q };
        proof {
            lemma_div_multiples_vanish(rounded as int, unit as int);
            lemma_mul_is_commutative(rounded as int, unit as int);
            assert(nearest(whole as nat) == rounded * unit);
            assert(nearest(whole as nat) / pow2(k as nat) == rounded);
        }
        if rounded >= 0x20_0000_0000_0000 {
            Number { bits: (1076 + k) * 0x10_0000_0000_0000 }
        } else {
            Number { bits: (1075 + k) * 0x10_0000_0000_0000 + (rounded - 0x10_0000_0000_0000) }
        }
    }

    /// The number of a byte.
    pub fn from_byte(byte: u8) -> (r: Number)
        ensures
            r == Self::spec_exact(byte as nat),
    {
        Self::exact(byte as u64)
    }
}

/// The bits that `exact_bits` gives for `m * 2^(e - 1075)` stand for that
/// whole number, wherever the scaled `m` is one.
proof fn lemma_exact_bits_value(m: nat, e: nat)
    requires
        0 < m < exact_limit(),
        1023 <= e <= 1075,
        pow2((1075 - e) as nat) <= m,
        m % pow2((1075 - e) as nat) == 0,
    ensures
        (Number { bits: Number::exact_bits(m, e) }).magnitude() == Some(m / pow2((1075 - e) as nat)),
        !(Number { bits: Number::exact_bits(m, e) }).negative(),
    decreases e,
{
    let unit = pow2((1075 - e) as nat);
    lemma2_to64();
    lemma2_to64_rest();
    lemma_pow2_pos((1075 - e) as nat);
    if m >= 0x10_0000_0000_0000 {
        let bits = (e * 0x10_0000_0000_0000 + (m - 0x10_0000_0000_0000)) as u64;
        let x = Number { bits };
        assert(bits == e * 0x10_0000_0000_0000 + (m - 0x10_0000_0000_0000));
        assert(x.fraction() == m - 0x10_0000_0000_0000);
        assert(x.exponent() == e);
    } else {
        assert(e > 1023) by {
            if e == 1023 {
                assert(pow2(52) == 0x10_0000_0000_0000);
            }
        }
        lemma_pow2_unfold((1076 - e) as nat);
        let next = pow2((1076 - e) as nat);
        assert(next == 2 * unit);
        assert((2 * m) % next == 0 && (2 * m) / next == m / unit) by {
            lemma_fundamental_div_mod(m as int, unit as int);
            let q = m as int / unit as int;
            assert(m == unit * q);
            assert(2 * m == next * q) by (nonlinear_arith)
                requires
                    m == unit * q,
                    next == 2 * unit,
            ;
            lemma_fundamental_div_mod_converse(2 * m as int, next as int, q, 0);
        }
        lemma_exact_bits_value(2 * m, (e - 1) as nat);
    }
}

/// The double that `spec_exact` gives for a whole number below 2^53 is that
/// number, and not negative.
pub proof fn lemma_exact_is_whole(n: nat)
    requires
        n < exact_limit(),
    ensures
        Number::spec_exact(n).whole() == Some(n as int),
        !Number::spec_exact(n).negative(),
{
    lemma2_to64();
    let x = Number::spec_exact(n);
    if n > 0 {
        lemma_exact_bits_value(n, 1075);
        assert(pow2(0) == 1);
        assert(n % 1 == 0 && n / 1 == n);
        assert(x.magnitude() == Some(n));
    } else {
        assert(x.bits == 0);
        assert(x.exponent() == 0 && x.fraction() == 0);
        assert(x.magnitude() == Some(0nat));
    }
}

/// Round trip: the number of a byte names that byte again.
pub proof fn lemma_byte_round_trip(byte: u8)
    ensures
        Number::spec_exact(byte as nat).spec_byte() == Some(byte),
{
    lemma_exact_is_whole(byte as nat);
}

/// The two flags are the whole numbers one and zero, and only the second is
/// zero.
pub proof fn lemma_flag_values()
    ensures
        Number::spec_flag(true).whole() == Some(1int),
        Number::spec_flag(false).whole() == Some(0int),
        !Number::spec_flag(true).is_zero(),
        Number::spec_flag(false).is_zero(),
{
    lemma2_to64_rest();
    let one = Number::spec_flag(true);
    assert(one.bits == 0x3ff0_0000_0000_0000);
    assert(one.exponent() == 1023);
    assert(one.fraction() == 0);
    assert(pow2(52) == 0x10_0000_0000_0000);
    assert(0x10_0000_0000_0000nat % 0x10_0000_0000_0000nat == 0);
    assert(0x10_0000_0000_0000nat / 0x10_0000_0000_0000nat == 1);
    assert(one.magnitude() == Some(1nat));
}

/// Halving a quotient that is still 2^53 or more leaves room for one more
/// bit to lose: a `u64` has at most eleven to lose.
proof fn lemma_halving_bound(q: nat, unit: nat, whole: nat, k: nat)
    requires
        q >= exact_limit(),
        unit == pow2(k),
        q * unit <= whole,
        whole <= u64::MAX,
        k <= 11,
    ensures
        k < 11,
        (q / 2) * pow2(k + 1) <= whole,
{
    lemma2_to64();
    lemma_pow2_unfold(k + 1);
    if k == 11 {
        assert(q * 0x800 >= 0x20_0000_0000_0000 * 0x800);
    }
    assert((q / 2) * (2 * unit) <= q * unit) by (nonlinear_arith)
        requires
            unit >= 0,
    ;
}

/// What is left of a whole number when its excess bits are dropped lies
/// below 2^53, and from 2^52 on where there were bits to drop; a number that
/// fits sixty-four bits has at most eleven to drop.
proof fn lemma_excess_bits(n: nat)
    ensures
        n / pow2(excess_bits(n)) < exact_limit(),
        excess_bits(n) > 0 ==> n / pow2(excess_bits(n)) >= 0x10_0000_0000_0000,
        n <= u64::MAX ==> excess_bits(n) <= 11,
        n < exact_limit() <==> excess_bits(n) == 0,
    decreases n,
{
    lemma2_to64();
    if n >= exact_limit() {
        lemma_excess_bits(n / 2);
        let k = excess_bits(n / 2);
        lemma_pow2_unfold(k + 1);
        lemma_pow2_pos(k);
        lemma_div_denominator(n as int, 2, pow2(k) as int);
        assert(n / pow2(k + 1) == (n / 2) / pow2(k)) by {
            assert(2 * pow2(k) == pow2(k + 1));
        }
        if n <= u64::MAX && k == 11 {
            assert(pow2(11) == 0x800);
            assert((n / 2) / 0x800 >= 0x10_0000_0000_0000);
        }
    }
}

/// The double that `spec_from_len` gives for a length is the whole number
/// nearest to the length that a double can be: the length itself below
/// 2^53, and above it the nearer of its two neighbours, the even one of two
/// equally near.
pub proof fn lemma_from_len_is_nearest(n: nat)
    requires
        n <= u64::MAX,
    ensures
        Number::spec_from_len(n).whole() == Some(nearest(n) as int),
        !Number::spec_from_len(n).negative(),
        n < exact_limit() ==> nearest(n) == n && Number::spec_from_len(n) == Number::spec_exact(n),
{
    lemma2_to64();
    lemma2_to64_rest();
    lemma_excess_bits(n);
    let k = excess_bits(n);
    let unit = pow2(k);
    lemma_pow2_pos(k);
    lemma_pow2_small(k);
    if n < exact_limit() {
        assert(unit == 1);
        assert(n / 1 == n && n % 1 == 0);
        assert(round_half_even(n, 1) == n);
        assert(nearest(n) == n);
        lemma_exact_is_whole(n);
    } else {
        let q = n / unit;
        let rounded: nat = if nearest(n) == q * unit {
            q
        } else {
            q + 1
        };
        assert(nearest(n) == rounded * unit);
        lemma_div_multiples_vanish(rounded as int, unit as int);
        lemma_mul_is_commutative(rounded as int, unit as int);
        assert(nearest(n) / unit == rounded);
        let x = Number::spec_from_len(n);
        if rounded >= exact_limit() {
            assert(rounded == 0x20_0000_0000_0000);
            assert(x.bits == (1076 + k) * 0x10_0000_0000_0000);
            assert(x.exponent() == 1076 + k);
            assert(x.fraction() == 0);
            lemma_pow2_unfold(k + 1);
            assert(x.significand() * pow2((k + 1) as nat) == rounded * unit) by (nonlinear_arith)
                requires
                    x.significand() == 0x10_0000_0000_0000,
                    rounded == 0x20_0000_0000_0000,
                    pow2((k + 1) as nat) == 2 * unit,
            ;
            assert(x.magnitude() == Some(nearest(n)));
        } else {
            assert(x.bits == (1075 + k) * 0x10_0000_0000_0000 + (rounded - 0x10_0000_0000_0000));
            assert(x.exponent() == 1075 + k);
            assert(x.fraction() == rounded - 0x10_0000_0000_0000);
            assert(x.magnitude() == Some(nearest(n)));
        }
    }
}

/// The powers of two up to 2^11.
proof fn lemma_pow2_small(k: nat)
    requires
        k <= 11,
    ensures
        pow2(k) <= 0x800,
{
    lemma2_to64();
}

} // verus!
