//! Binary64 arithmetic on whole numbers, as far as blending two pulse widths
//! needs it: values that are not negative, rounded to nearest with ties to
//! even.
//!
//! A value is held as a significand and an exponent, and stands for
//! `sig * 2^exp`. Every operation forms its exact result first and rounds it
//! once, as IEEE 754 asks.

use vstd::prelude::*;
use vstd::arithmetic::div_mod::{
    lemma_fundamental_div_mod,
    lemma_fundamental_div_mod_converse,
    lemma_mod_bound,
};
use vstd::arithmetic::power2::{
    lemma2_to64,
    lemma2_to64_rest,
    lemma_pow2_adds,
    lemma_pow2_pos,
    lemma_pow2_strictly_increases,
    lemma_pow2_unfold,
    pow2,
};

verus! {

/// The number of binary digits of a binary64 significand.
pub const PRECISION: i64 = 53;

/// The exponent of the smallest positive binary64 value.
pub const MIN_EXPONENT: i64 = -1074;

/// `2^52`: the smallest significand of a normal value.
pub const HIDDEN_BIT: u64 = 0x10_0000_0000_0000;

/// `2^53`: one more than the largest significand.
pub const SIGNIFICAND_LIMIT: u64 = 0x20_0000_0000_0000;

/// The value `sig * 2^exp`.
pub struct Dyadic {
    pub sig: nat,
    pub exp: int,
}

impl Dyadic {
    /// Whether the pair is the one form in which a binary64 value is held:
    /// a significand below `2^53`, an exponent of at least -1074, and at a
    /// larger exponent a significand of full length.
    pub open spec fn canonical(self) -> bool {
        &&& self.sig < pow2(53)
        &&& self.exp >= MIN_EXPONENT
        &&& self.exp > MIN_EXPONENT ==> self.sig >= pow2(52)
    }
}

/// The number of binary digits of `n`.
pub open spec fn bit_length(n: nat) -> nat
    decreases n,
{
    if n == 0 {
        0
    } else {
        1 + bit_length(n / 2)
    }
}

/// The exponent of the binary64 values around `n * 2^exp`: the one at which
/// `n * 2^exp` has 53 digits, but not below -1074.
pub open spec fn grid_exponent(n: nat, exp: int) -> int {
    let natural = exp + bit_length(n) - PRECISION;
    if natural < MIN_EXPONENT {
        MIN_EXPONENT as int
    } else {
        natural
    }
}

/// The binary64 value nearest to `n * 2^exp`; of two that are equally near,
/// the one with the even significand.
pub open spec fn rounded(n: nat, exp: int) -> Dyadic {
    if n == 0 {
        Dyadic { sig: 0, exp: MIN_EXPONENT as int }
    } else {
        let e = grid_exponent(n, exp);
        if e <= exp {
            Dyadic { sig: n * pow2((exp - e) as nat), exp: e }
        } else {
            let unit = pow2((e - exp) as nat);
            let q = n / unit;
            let r = n % unit;
            let sig = if 2 * r > unit || (2 * r == unit && q % 2 == 1) {
                q + 1
            } else {
                q
            };
            if sig == pow2(53) {
                Dyadic { sig: pow2(52), exp: e + 1 }
            } else {
                Dyadic { sig, exp: e }
            }
        }
    }
}

/// The value behind the bit pattern `bits` of a finite binary64 value that is
/// not negative.
pub open spec fn decoded(bits: u64) -> Dyadic {
    let field = bits / HIDDEN_BIT;
    let fraction = bits % HIDDEN_BIT;
    if field == 0 {
        Dyadic { sig: fraction as nat, exp: MIN_EXPONENT as int }
    } else {
        Dyadic { sig: (HIDDEN_BIT + fraction) as nat, exp: field - 1075 }
    }
}

/// The binary64 value of the whole number `n`.
pub open spec fn of_integer(n: u64) -> Dyadic {
    rounded(n as nat, 0)
}

/// The binary64 product of two values.
pub open spec fn product(a: Dyadic, b: Dyadic) -> Dyadic {
    rounded(a.sig * b.sig, a.exp + b.exp)
}

/// The binary64 sum of two values. Adding zero changes nothing.
pub open spec fn sum(a: Dyadic, b: Dyadic) -> Dyadic {
    if a.sig == 0 {
        b
    } else if b.sig == 0 {
        a
    } else {
        let least = if a.exp < b.exp {
            a.exp
        } else {
            b.exp
        };
        rounded(
            a.sig * pow2((a.exp - least) as nat) + b.sig * pow2((b.exp - least) as nat),
            least,
        )
    }
}

/// The binary64 difference `1 - w`, for a value `w` from 0 to 1 that is
/// held at an exponent below zero.
pub open spec fn one_minus(w: Dyadic) -> Dyadic {
    rounded((pow2((-w.exp) as nat) - w.sig) as nat, w.exp)
}

/// The whole number that a value becomes when its fraction is cut off; what
/// does not fit in 64 bits becomes the largest number that does.
pub open spec fn truncated(a: Dyadic) -> u64 {
    let whole = if a.exp >= 0 {
        a.sig * pow2(a.exp as nat)
    } else {
        a.sig / pow2((-a.exp) as nat)
    };
    if whole > u64::MAX {
        u64::MAX
    } else {
        whole as u64
    }
}

/// The pulse width `(1 - weight) * from + weight * to`, formed in binary64
/// arithmetic and cut off to whole microseconds. `weight` is the bit pattern
/// of a value from 0 to 1, both included.
#[verifier::opaque]
pub open spec fn blended(from: u64, to: u64, weight: u64) -> u64 {
    let w = decoded(weight);
    truncated(sum(product(one_minus(w), of_integer(from)), product(w, of_integer(to))))
}

proof fn lemma_pow2_numbers()
    ensures
        pow2(0) == 1,
        pow2(11) == 0x800,
        pow2(12) == 0x1000,
        pow2(52) == 0x10_0000_0000_0000,
        pow2(53) == 0x20_0000_0000_0000,
        pow2(64) == 0x1_0000_0000_0000_0000,
        pow2(126) == 0x4000_0000_0000_0000_0000_0000_0000_0000,
        pow2(127) == 0x8000_0000_0000_0000_0000_0000_0000_0000,
        pow2(128) == 0x1_0000_0000_0000_0000_0000_0000_0000_0000,
{
    lemma2_to64();
    lemma2_to64_rest();
    lemma_pow2_adds(64, 62);
    lemma_pow2_adds(64, 63);
    lemma_pow2_adds(64, 64);
}

proof fn lemma_pow2_monotone(a: nat, b: nat)
    requires
        a <= b,
    ensures
        pow2(a) <= pow2(b),
        pow2(a) > 0,
{
    lemma_pow2_pos(a);
    if a < b {
        lemma_pow2_strictly_increases(a, b);
    }
}

proof fn lemma_pow2_double(a: nat)
    ensures
        pow2(a + 1) == 2 * pow2(a),
        pow2(a) > 0,
{
    lemma_pow2_pos(a);
    lemma_pow2_unfold(a + 1);
}

/// A number of `k` digits lies from `2^(k-1)` up to, but not at, `2^k`.
proof fn lemma_bit_length_bounds(n: nat)
    requires
        n > 0,
    ensures
        bit_length(n) >= 1,
        pow2((bit_length(n) - 1) as nat) <= n < pow2(bit_length(n)),
    decreases n,
{
    lemma2_to64();
    if n == 1 {
        assert(bit_length(0) == 0);
        assert(bit_length(1) == 1 + bit_length(0));
    } else {
        let half = n / 2;
        assert(half >= 1);
        lemma_bit_length_bounds(half);
        let k = bit_length(half);
        lemma_pow2_double((k - 1) as nat);
        lemma_pow2_double(k);
        assert(bit_length(n) == k + 1);
    }
}

/// The only length a number from `2^(k-1)` up to `2^k` can have is `k`.
proof fn lemma_bit_length_is(n: nat, k: nat)
    requires
        k >= 1,
        pow2((k - 1) as nat) <= n < pow2(k),
    ensures
        bit_length(n) == k,
{
    lemma_pow2_pos((k - 1) as nat);
    lemma_bit_length_bounds(n);
    let len = bit_length(n);
    if len < k {
        lemma_pow2_monotone(len, (k - 1) as nat);
    } else if len > k {
        lemma_pow2_monotone(k, (len - 1) as nat);
    }
}

proof fn lemma_quotient_bounds(n: int, unit: int, low: int, high: int)
    requires
        unit > 0,
        n >= 0,
        low * unit <= n < high * unit,
    ensures
        low <= n / unit < high,
        0 <= n % unit < unit,
        n == (n / unit) * unit + n % unit,
{
    lemma_fundamental_div_mod(n, unit);
    lemma_mod_bound(n, unit);
    let q = n / unit;
    let r = n % unit;
    assert(n == q * unit + r) by (nonlinear_arith)
        requires
            n == unit * q + r,
    ;
    assert(low <= q < high) by (nonlinear_arith)
        requires
            unit > 0,
            low * unit <= q * unit + r < high * unit,
            0 <= r < unit,
    ;
}

/// What `rounded` hands out is canonical, and its exponent is the grid
/// exponent or one more.
proof fn lemma_rounded_canonical(n: nat, exp: int)
    ensures
        rounded(n, exp).canonical(),
        n > 0 ==> grid_exponent(n, exp) <= rounded(n, exp).exp <= grid_exponent(n, exp) + 1,
        n == 0 ==> rounded(n, exp).sig == 0,
{
    lemma_pow2_numbers();
    if n > 0 {
        lemma_bit_length_bounds(n);
        let len = bit_length(n);
        let e = grid_exponent(n, exp);
        if e <= exp {
            let k = (exp - e) as nat;
            assert(len + k <= 53);
            lemma_pow2_adds(len, k);
            lemma_pow2_monotone(len + k, 53);
            lemma_pow2_pos(k);
            assert(n * pow2(k) < pow2(len) * pow2(k)) by (nonlinear_arith)
                requires
                    n < pow2(len),
                    pow2(k) > 0,
            ;
            if e > MIN_EXPONENT {
                assert(len + k == 53);
                lemma_pow2_adds((len - 1) as nat, k);
                assert(n * pow2(k) >= pow2((len - 1) as nat) * pow2(k)) by (nonlinear_arith)
                    requires
                        n >= pow2((len - 1) as nat),
                        pow2(k) > 0,
                ;
            }
        } else {
            let shift = (e - exp) as nat;
            let unit = pow2(shift);
            lemma_pow2_pos(shift);
            assert(len <= shift + 53);
            lemma_pow2_monotone(len, shift + 53);
            lemma_pow2_adds(53, shift);
            if e > MIN_EXPONENT {
                assert(len == shift + 53);
                lemma_pow2_adds(52, shift);
                lemma_quotient_bounds(n as int, unit as int, pow2(52) as int, pow2(53) as int);
            } else {
                lemma_quotient_bounds(n as int, unit as int, 0, pow2(53) as int);
            }
        }
    }
}

/// Far below 1: a value under `2^-67`, zero included, leaves `1 - w` so
/// close to 1 that it rounds to 1.
proof fn lemma_one_minus_far(s: nat, a: nat)
    requires
        s < pow2(53),
        a > 120,
    ensures
        rounded((pow2(a) - s) as nat, -(a as int)) == (Dyadic { sig: pow2(52), exp: -52 }),
{
    lemma_pow2_numbers();
    if s == 0 {
        let n = pow2(a);
        let shift = (a - 52) as nat;
        lemma_pow2_double(a);
        lemma_bit_length_is(n, a + 1);
        assert(grid_exponent(n, -(a as int)) == -52);
        lemma_pow2_adds(52, shift);
        lemma_pow2_pos(shift);
        lemma_fundamental_div_mod_converse(n as int, pow2(shift) as int, pow2(52) as int, 0);
        assert(((-52) - (-(a as int))) as nat == shift);
        return ;
    }
    let b = (a - 53) as nat;
    let unit = pow2(b);
    lemma_pow2_adds(53, b);
    lemma_pow2_double((a - 1) as nat);
    lemma_pow2_double((b - 1) as nat);
    lemma_pow2_monotone(53, (b - 1) as nat);
    lemma_pow2_monotone(53, (a - 1) as nat);
    let n = (pow2(a) - s) as nat;
    assert(pow2((a - 1) as nat) <= n < pow2(a));
    lemma_bit_length_is(n, a);
    assert(grid_exponent(n, -(a as int)) == -53);
    let q = pow2(53) - 1;
    let r = unit - s;
    assert(n == q * unit + r) by (nonlinear_arith)
        requires
            n == pow2(a) - s,
            pow2(a) == pow2(53) * unit,
            q == pow2(53) - 1,
            r == unit - s,
    ;
    lemma_fundamental_div_mod_converse(n as int, unit as int, q as int, r as int);
    assert(((-53) - (-(a as int))) as nat == b);
}

/// Far apart: a value more than `2^64` times smaller than a normal one does
/// not change it when added.
proof fn lemma_sum_far(big: Dyadic, small: Dyadic)
    requires
        big.canonical(),
        small.canonical(),
        big.exp - small.exp > 64,
    ensures
        rounded(
            (big.sig * pow2((big.exp - small.exp) as nat) + small.sig * pow2(0)) as nat,
            small.exp,
        ) == big,
{
    lemma_pow2_numbers();
    let d = (big.exp - small.exp) as nat;
    let unit = pow2(d);
    lemma_pow2_pos(d);
    lemma_pow2_double((d - 1) as nat);
    lemma_pow2_monotone(53, (d - 1) as nat);
    lemma_pow2_adds(52, d);
    lemma_pow2_adds(53, d);
    let n = big.sig * unit + small.sig * pow2(0);
    assert(n == big.sig * unit + small.sig) by (nonlinear_arith)
        requires
            n == big.sig * unit + small.sig * pow2(0),
            pow2(0) == 1,
    ;
    assert(pow2(52) * unit <= big.sig * unit && big.sig * unit + unit <= pow2(53) * unit)
        by (nonlinear_arith)
        requires
            pow2(52) <= big.sig < pow2(53),
            unit > 0,
    ;
    lemma_bit_length_is(n as nat, 53 + d);
    assert(grid_exponent(n as nat, small.exp) == big.exp);
    lemma_fundamental_div_mod_converse(n as int, unit as int, big.sig as int, small.sig as int);
}

/// A binary64 value that is not negative, in canonical form.
#[derive(Clone, Copy, Debug, PartialEq, Eq)]
pub struct Binary {
    sig: u64,
    exp: i64,
}

impl View for Binary {
    type V = Dyadic;

    closed spec fn view(&self) -> Dyadic {
        Dyadic { sig: self.sig as nat, exp: self.exp as int }
    }
}

fn power_of_two(k: u32) -> (power: u128)
    requires
        k < 128,
    ensures
        power == pow2(k as nat),
        power > 0,
{
    proof {
        lemma_pow2_numbers();
    }
    let mut power: u128 = 1;
    let mut i: u32 = 0;
    while i < k
        invariant
            i <= k < 128,
            power == pow2(i as nat),
            power > 0,
        decreases k - i,
    {
        proof {
            lemma_pow2_numbers();
            lemma_pow2_monotone(i as nat, 126);
            lemma_pow2_double(i as nat);
        }
        power = power * 2;
        i += 1;
    }
    power
}

fn length_of(n: u128) -> (length: u32)
    ensures
        length == bit_length(n as nat),
        length <= 128,
{
    proof {
        lemma_pow2_numbers();
        if n > 0 {
            lemma_bit_length_bounds(n as nat);
            if bit_length(n as nat) > 128 {
                lemma_pow2_monotone(128, (bit_length(n as nat) - 1) as nat);
            }
        }
    }
    let mut rest = n;
    let mut length: u32 = 0;
    while rest > 0
        invariant
            length + bit_length(rest as nat) == bit_length(n as nat),
            bit_length(n as nat) <= 128,
        decreases rest,
    {
        rest = rest / 2;
        length += 1;
    }
    length
}

impl Binary {
    /// Rounds `n * 2^exp` to binary64.
    fn round(n: u128, exp: i64) -> (value: Binary)
        requires
            n > 0 ==> -1200 <= exp <= 1200,
        ensures
            value@ == rounded(n as nat, exp as int),
            value@.canonical(),
            n > 0 ==> value.exp <= exp + 76 || value.exp <= MIN_EXPONENT + 1,
            n == 0 ==> value.sig == 0,
    {
        if n == 0 {
            proof {
                lemma_rounded_canonical(0, exp as int);
            }
            return Binary { sig: 0, exp: MIN_EXPONENT };
        }
        let length = length_of(n) as i64;
        proof {
            lemma_pow2_numbers();
            lemma_bit_length_bounds(n as nat);
            lemma_rounded_canonical(n as nat, exp as int);
        }
        let natural = exp + length - PRECISION;
        let e = if natural < MIN_EXPONENT {
            MIN_EXPONENT
        } else {
            natural
        };
        if e <= exp {
            let k = (exp - e) as u32;
            let scale = power_of_two(k);
            assert(n * scale < pow2(53)) by {
                lemma_pow2_adds(length as nat, k as nat);
                lemma_pow2_monotone((length + k) as nat, 53);
                assert(n * scale < pow2(length as nat) * pow2(k as nat)) by (nonlinear_arith)
                    requires
                        n < pow2(length as nat),
                        scale == pow2(k as nat),
                        scale > 0,
                ;
            }
            let sig = n * scale;
            Binary { sig: sig as u64, exp: e }
        } else {
            let shift = (e - exp) as u32;
            let unit = power_of_two(shift);
            let q = n / unit;
            let r = n % unit;
            proof {
                lemma_pow2_monotone(shift as nat, 126);
                lemma_pow2_monotone(length as nat, (shift + 53) as nat);
                lemma_pow2_adds(53, shift as nat);
                lemma_quotient_bounds(n as int, unit as int, 0, pow2(53) as int);
            }
            let sig = if 2 * r > unit || (2 * r == unit && q % 2 == 1) {
                q + 1
            } else {
                q
            };
            if sig == SIGNIFICAND_LIMIT as u128 {
                Binary { sig: HIDDEN_BIT, exp: e + 1 }
            } else {
                Binary { sig: sig as u64, exp: e }
            }
        }
    }

    /// The value behind the bit pattern of a finite value that is not
    /// negative.
    fn decode(bits: u64) -> (value: Binary)
        requires
            bits < 0x7ff0_0000_0000_0000,
        ensures
            value@ == decoded(bits),
            value@.canonical(),
            value.exp <= 971,
            bits > 0 ==> value.sig > 0,
            bits <= 0x3ff0_0000_0000_0000 ==> value.exp <= -53 || (value.exp == -52 && value.sig
                == HIDDEN_BIT),
    {
        proof {
            lemma_pow2_numbers();
        }
        let field = bits / HIDDEN_BIT;
        let fraction = bits % HIDDEN_BIT;
        if field == 0 {
            Binary { sig: fraction, exp: MIN_EXPONENT }
        } else {
            Binary { sig: HIDDEN_BIT + fraction, exp: field as i64 - 1075 }
        }
    }

    /// The product of this value and the whole number `n`.
    fn scale(self, n: u64) -> (value: Binary)
        requires
            self@.canonical(),
            self.exp <= 1000,
        ensures
            value@ == product(self@, of_integer(n)),
            value@.canonical(),
            value.exp <= self.exp + 160 || value.exp <= MIN_EXPONENT + 1,
    {
        proof {
            lemma_pow2_numbers();
            lemma_rounded_canonical(n as nat, 0);
        }
        let factor = Binary::round(n as u128, 0);
        if self.sig == 0 || factor.sig == 0 {
            assert(self.sig * factor.sig == 0) by (nonlinear_arith)
                requires
                    self.sig == 0 || factor.sig == 0,
            ;
            return Binary::round(0, 0 - 1);
        }
        assert(factor.exp >= -52) by {
            lemma_bit_length_bounds(n as nat);
        }
        assert(0 < self.sig * factor.sig < 0x20_0000_0000_0000 * 0x20_0000_0000_0000)
            by (nonlinear_arith)
            requires
                0 < self.sig < 0x20_0000_0000_0000,
                0 < factor.sig < 0x20_0000_0000_0000,
        ;
        let value = Binary::round(self.sig as u128 * factor.sig as u128, self.exp + factor.exp);
        value
    }

    /// The difference `1 - self`, for a value from 0 to 1.
    fn complement(self) -> (value: Binary)
        requires
            self@.canonical(),
            self.exp <= -53 || (self.exp == -52 && self.sig == HIDDEN_BIT),
        ensures
            value@ == one_minus(self@),
            value@.canonical(),
            value.exp <= -52,
    {
        proof {
            lemma_pow2_numbers();
        }
        let a = (-self.exp) as u32;
        if a <= 120 {
            let one = power_of_two(a);
            proof {
                if a >= 53 {
                    lemma_pow2_monotone(53, a as nat);
                }
                lemma_pow2_monotone(a as nat, 120);
                lemma_pow2_monotone(120, 126);
            }
            let n = one - self.sig as u128;
            proof {
                if n > 0 {
                    lemma_bit_length_bounds(n as nat);
                    if bit_length(n as nat) > a {
                        lemma_pow2_monotone(a as nat, (bit_length(n as nat) - 1) as nat);
                    }
                }
            }
            Binary::round(n, self.exp)
        } else {
            proof {
                lemma_one_minus_far(self.sig as nat, a as nat);
            }
            Binary { sig: HIDDEN_BIT, exp: -52 }
        }
    }

    /// The sum of two values.
    fn add(self, other: Binary) -> (value: Binary)
        requires
            self@.canonical(),
            other@.canonical(),
            self.exp <= 1000,
            other.exp <= 1000,
        ensures
            value@ == sum(self@, other@),
            value@.canonical(),
    {
        if self.sig == 0 {
            return other;
        }
        if other.sig == 0 {
            return self;
        }
        let (big, small) = if self.exp < other.exp {
            (other, self)
        } else {
            (self, other)
        };
        proof {
            lemma_pow2_numbers();
            assert(sum(self@, other@) == rounded(
                (big.sig * pow2((big.exp - small.exp) as nat) + small.sig * pow2(0)) as nat,
                small.exp as int,
            ));
        }
        let gap = big.exp - small.exp;
        if gap <= 64 {
            let factor = power_of_two(gap as u32);
            proof {
                lemma_pow2_monotone(gap as nat, 64);
            }
            assert(big.sig * factor <= 0x20_0000_0000_0000 * 0x1_0000_0000_0000_0000)
                by (nonlinear_arith)
                requires
                    big.sig < 0x20_0000_0000_0000,
                    0 < factor <= 0x1_0000_0000_0000_0000,
            ;
            let n = big.sig as u128 * factor + small.sig as u128;
            assert(n == big.sig * pow2(gap as nat) + small.sig * pow2(0)) by (nonlinear_arith)
                requires
                    n == big.sig * factor + small.sig,
                    factor == pow2(gap as nat),
                    pow2(0) == 1,
            ;
            Binary::round(n, small.exp)
        } else {
            proof {
                lemma_sum_far(big@, small@);
            }
            big
        }
    }

    /// The whole number left when the fraction is cut off.
    fn truncate(self) -> (whole: u64)
        requires
            self@.canonical(),
        ensures
            whole == truncated(self@),
    {
        proof {
            lemma_pow2_numbers();
        }
        if self.exp >= 0 {
            if self.exp >= 12 {
                proof {
                    lemma_pow2_monotone(12, self.exp as nat);
                    assert(self.sig * pow2(self.exp as nat) >= 0x10_0000_0000_0000 * 0x1000)
                        by (nonlinear_arith)
                        requires
                            self.sig >= 0x10_0000_0000_0000,
                            pow2(self.exp as nat) >= 0x1000,
                    ;
                }
                u64::MAX
            } else {
                let factor = power_of_two(self.exp as u32);
                proof {
                    lemma_pow2_monotone(self.exp as nat, 11);
                }
                assert(self.sig * factor < 0x20_0000_0000_0000 * 0x800) by (nonlinear_arith)
                    requires
                        self.sig < 0x20_0000_0000_0000,
                        0 < factor <= 0x800,
                ;
                let whole = self.sig as u128 * factor;
                whole as u64
            }
        } else {
            let k = -self.exp;
            if k >= 53 {
                proof {
                    lemma_pow2_monotone(53, k as nat);
                    lemma_quotient_bounds(self.sig as int, pow2(k as nat) as int, 0, 1);
                }
                0
            } else {
                let unit = power_of_two(k as u32);
                proof {
                    lemma_pow2_monotone(k as nat, 64);
                }
                (self.sig as u128 / unit) as u64
            }
        }
    }
}

/// A whole number below `2^53` is a binary64 value as it is: multiplying it
/// by 1 and cutting off the fraction gives the same number again.
proof fn lemma_whole_number_is_exact(n: u64)
    requires
        n < SIGNIFICAND_LIMIT,
    ensures
        rounded(pow2(52) * of_integer(n).sig, -52 + of_integer(n).exp) == of_integer(n),
        truncated(of_integer(n)) == n,
{
    lemma_pow2_numbers();
    let t = of_integer(n);
    if n == 0 {
        lemma_pow2_pos(1074);
        assert(pow2(52) * t.sig == 0);
        assert(0int / (pow2(1074) as int) == 0) by (nonlinear_arith)
            requires
                pow2(1074) > 0,
        ;
    } else {
        lemma_bit_length_bounds(n as nat);
        let len = bit_length(n as nat);
        if len > 53 {
            lemma_pow2_monotone(53, (len - 1) as nat);
        }
        let k = (53 - len) as nat;
        assert(grid_exponent(n as nat, 0) == -(k as int));
        assert(t == (Dyadic { sig: (n * pow2(k)) as nat, exp: -(k as int) }));
        lemma_pow2_pos(k);
        lemma_pow2_adds((len - 1) as nat, k);
        lemma_pow2_adds(len, k);
        assert(pow2(52) <= n * pow2(k) < pow2(53)) by (nonlinear_arith)
            requires
                pow2((len - 1) as nat) <= n < pow2(len),
                pow2(k) > 0,
                pow2((len - 1) as nat) * pow2(k) == pow2(52),
                pow2(len) * pow2(k) == pow2(53),
        ;
        let m = pow2(52) * t.sig;
        lemma_pow2_adds(52, 52);
        lemma_pow2_adds(52, 53);
        assert(pow2(104) <= m < pow2(105)) by (nonlinear_arith)
            requires
                m == pow2(52) * t.sig,
                pow2(52) <= t.sig < pow2(53),
                pow2(52) * pow2(52) == pow2(104),
                pow2(52) * pow2(53) == pow2(105),
                pow2(52) > 0,
        ;
        lemma_bit_length_is(m, 105);
        assert(grid_exponent(m, -52 + t.exp) == t.exp);
        lemma_fundamental_div_mod_converse(m as int, pow2(52) as int, t.sig as int, 0);
        assert((t.exp - (-52 + t.exp)) as nat == 52);
        if k > 0 {
            lemma_fundamental_div_mod_converse(t.sig as int, pow2(k) as int, n as int, 0);
        } else {
            assert(n * pow2(0) == n && t.sig * pow2(0) == t.sig) by (nonlinear_arith)
                requires
                    pow2(0) == 1,
            ;
        }
    }
}

/// At its ends the blend is one of the two widths, as long as binary64
/// holds them exactly: at weight 0 it is `from`, and at weight 1 it is `to`.
pub proof fn lemma_blended_at_ends(from: u64, to: u64)
    requires
        from < SIGNIFICAND_LIMIT,
        to < SIGNIFICAND_LIMIT,
    ensures
        blended(from, to, 0) == from,
        blended(from, to, 0x3ff0_0000_0000_0000) == to,
{
    reveal(blended);
    lemma_pow2_numbers();
    lemma_whole_number_is_exact(from);
    lemma_whole_number_is_exact(to);
    lemma_rounded_canonical(from as nat, 0);
    lemma_rounded_canonical(to as nat, 0);
    let zero = Dyadic { sig: 0, exp: MIN_EXPONENT as int };
    let one = Dyadic { sig: pow2(52), exp: -52 };
    let near = of_integer(from);
    let far = of_integer(to);
    assert(decoded(0) == zero);
    assert(decoded(0x3ff0_0000_0000_0000) == one);
    lemma_one_minus_far(0, 1074);
    assert(one_minus(zero) == one);
    assert(one_minus(one) == zero);
    assert(0 * near.sig == 0 && 0 * far.sig == 0);
    assert(product(zero, near).sig == 0 && product(zero, far).sig == 0);
    assert(product(zero, far) == zero && product(zero, near) == zero);
    assert(product(one, near) == near);
    assert(product(one, far) == far);
    assert(sum(near, zero) == near);
    assert(sum(zero, far) == far);
}

/// Computes `blended`: the pulse width between `from` and `to` at `weight`,
/// the bit pattern of a value from 0 to 1, both included.
pub fn blend(from: u64, to: u64, weight: u64) -> (width: u64)
    requires
        weight <= 0x3ff0_0000_0000_0000,
    ensures
        width == blended(from, to, weight),
{
    reveal(blended);
    let w = Binary::decode(weight);
    let rest = w.complement();
    let near = rest.scale(from);
    let far = w.scale(to);
    near.add(far).truncate()
}

} // verus!
