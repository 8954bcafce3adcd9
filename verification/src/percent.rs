//! Exact percentages between 0 and 100.
//!
//! A percentage is held as `mantissa / 2^shift` in lowest terms (the shift is zero or the
//! mantissa is odd). Every finite binary64 value is of that form, so the percentages that
//! the app-server reports, and their clamping to `0..=100`, are represented without loss.

use vstd::prelude::*;
use vstd::arithmetic::power2::{pow2, lemma_pow2_adds, lemma_pow2_unfold, lemma_pow2_pos, lemma_pow2_strictly_increases, lemma2_to64};
use crate::json::{JsonNumber, JsonValue};

verus! {

/// A percentage `mantissa / 2^shift`.
#[derive(Clone, Copy, Debug, PartialEq, Eq, Structural)]
pub struct Percent {
    pub mantissa: u64,
    pub shift: u16,
}

/// `m / 2^s` reduced to lowest terms: halve while the shift is positive and the mantissa even.
pub open spec fn canon(m: nat, s: nat) -> (nat, nat)
    decreases s,
{
    if s > 0 && m % 2 == 0 {
        canon(m / 2, (s - 1) as nat)
    } else {
        (m, s)
    }
}

pub open spec fn zero_percent() -> Percent {
    Percent { mantissa: 0, shift: 0 }
}

pub open spec fn full_percent() -> Percent {
    Percent { mantissa: 100, shift: 0 }
}

/// `num / 2^s` clamped to `0..=100`, in lowest terms.
pub open spec fn clamp_ratio(num: int, s: nat) -> Percent {
    if num <= 0 {
        zero_percent()
    } else if num >= 100 * pow2(s) {
        full_percent()
    } else {
        Percent { mantissa: canon(num as nat, s).0 as u64, shift: canon(num as nat, s).1 as u16 }
    }
}

pub open spec fn f64_negative(bits: u64) -> bool {
    bits >= 0x8000_0000_0000_0000
}

/// The biased exponent field of a binary64 value.
pub open spec fn f64_biased(bits: u64) -> int {
    (bits / 0x10_0000_0000_0000) as int % 2048
}

/// The significand of a binary64 value (the fraction field, with the implicit bit of a normal value).
pub open spec fn f64_significand(bits: u64) -> int {
    if f64_biased(bits) == 0 {
        bits as int % 0x10_0000_0000_0000
    } else {
        bits as int % 0x10_0000_0000_0000 + 0x10_0000_0000_0000
    }
}

/// The binary exponent: the value is `significand * 2^exponent`.
pub open spec fn f64_exponent(bits: u64) -> int {
    if f64_biased(bits) == 0 {
        -1074
    } else {
        f64_biased(bits) - 1075
    }
}

/// The value of a binary64 number clamped to `0..=100` (what `f64::clamp(x, 0.0, 100.0)` gives
/// for the finite values that JSON can hold).
pub open spec fn f64_percent(bits: u64) -> Percent {
    let sign: int = if f64_negative(bits) { -1 } else { 1 };
    let e = f64_exponent(bits);
    if e >= 0 {
        clamp_ratio(sign * f64_significand(bits) * pow2(e as nat), 0)
    } else {
        clamp_ratio(sign * f64_significand(bits), (-e) as nat)
    }
}

/// `Number::as_f64` followed by a clamp to `0..=100`.
pub open spec fn number_percent(n: JsonNumber) -> Percent {
    match n {
        JsonNumber::PosInt(u) => clamp_ratio(u as int, 0),
        JsonNumber::NegInt(i) => clamp_ratio(i as int, 0),
        JsonNumber::Float { bits, .. } => f64_percent(bits),
    }
}

/// `and_then(Value::as_f64).unwrap_or(0.0).clamp(0.0, 100.0)`.
pub open spec fn percent_of(v: Option<JsonValue>) -> Percent {
    match v {
        Some(JsonValue::Number(n)) => number_percent(n),
        _ => zero_percent(),
    }
}

impl Percent {
    /// The value lies in `0..=100`.
    pub open spec fn in_range(self) -> bool {
        self.mantissa <= 100 * pow2(self.shift as nat)
    }

    /// The value is strictly below `k`.
    pub open spec fn below(self, k: int) -> bool {
        self.mantissa < k * pow2(self.shift as nat)
    }

    /// The remaining share `100 - value` is strictly above `c`.
    pub open spec fn remaining_above(self, c: int) -> bool {
        self.below(100 - c)
    }

    /// The value equals the whole number `n`.
    pub open spec fn equals_whole(self, n: int) -> bool {
        self.mantissa == n * pow2(self.shift as nat)
    }

    /// A whole percentage.
    pub fn whole(n: u8) -> (p: Percent)
        requires
            n <= 100,
        ensures
            p == clamp_ratio(n as int, 0),
            p.equals_whole(n as int),
    {
        proof {
            lemma2_to64();
            assert(n as int * pow2(0) == n as int);
        }
        Percent { mantissa: n as u64, shift: 0 }
    }

    /// Whether the value is strictly below `k`.
    pub fn is_below(&self, k: u8) -> (r: bool)
        requires
            k <= 100,
        ensures
            r == self.below(k as int),
    {
        if self.shift >= 64 {
            proof {
                lemma2_to64();
                if self.shift > 64 {
                    lemma_pow2_strictly_increases(64, self.shift as nat);
                }
                assert(k * pow2(self.shift as nat) >= k * pow2(64)) by (nonlinear_arith)
                    requires
                        pow2(self.shift as nat) >= pow2(64),
                        k >= 0,
                ;
                assert(k >= 1 ==> k * pow2(64) >= pow2(64)) by (nonlinear_arith);
            }
            k > 0
        } else {
            let p = pow2_u128(self.shift);
            proof {
                lemma2_to64();
                if self.shift < 64 {
                    lemma_pow2_strictly_increases(self.shift as nat, 64);
                }
                assert(k * p <= 100 * 0x10000000000000000) by (nonlinear_arith)
                    requires
                        k <= 100,
                        p <= 0x10000000000000000,
                ;
            }
            (self.mantissa as u128) < (k as u128) * p
        }
    }

    /// Whether the remaining share `100 - value` is strictly above `c`.
    pub fn is_remaining_above(&self, c: u8) -> (r: bool)
        ensures
            r == self.remaining_above(c as int),
    {
        if c >= 100 {
            proof {
                lemma_pow2_pos(self.shift as nat);
                assert((100 - c) * pow2(self.shift as nat) <= 0) by (nonlinear_arith)
                    requires
                        c >= 100,
                        pow2(self.shift as nat) > 0,
                ;
            }
            false
        } else {
            self.is_below(100 - c)
        }
    }
}

/// `2^e` for `e` below 64.
fn pow2_u128(e: u16) -> (p: u128)
    requires
        e < 64,
    ensures
        p == pow2(e as nat),
{
    let mut p: u128 = 1;
    let mut i: u16 = 0;
    proof {
        lemma2_to64();
    }
    while i < e
        invariant
            i <= e < 64,
            p == pow2(i as nat),
        decreases e - i,
    {
        proof {
            lemma_pow2_unfold((i + 1) as nat);
            lemma2_to64();
            lemma_pow2_strictly_increases(i as nat, 64);
        }
        p = p * 2;
        i = i + 1;
    }
    p
}

impl Percent {
    /// The remaining share `100 - value`, clamped to `0..=100`, in lowest terms.
    pub open spec fn remaining_spec(self) -> Percent {
        clamp_ratio(100 * pow2(self.shift as nat) - self.mantissa, self.shift as nat)
    }

    /// The remaining share `100 - value`, exactly, clamped to `0..=100`. It is computed when
    /// the value has at most 57 binary fraction digits (then `100 * 2^shift` fits in 64 bits);
    /// otherwise the result is `None`.
    pub fn remaining(&self) -> (r: Option<Percent>)
        ensures
            r is Some <==> self.shift <= 57,
            r matches Some(q) ==> q == self.remaining_spec(),
    {
        if self.shift > 57 {
            return None;
        }
        let p = pow2_u128(self.shift);
        proof {
            lemma2_to64();
            if self.shift < 57 {
                lemma_pow2_strictly_increases(self.shift as nat, 57);
            }
            assert(pow2(57) == 0x200_0000_0000_0000) by {
                lemma_pow2_adds(32, 25);
                lemma2_to64();
            }
        }
        let total: u128 = 100 * p;
        if (self.mantissa as u128) >= total {
            return Some(Percent { mantissa: 0, shift: 0 });
        }
        if self.mantissa == 0 {
            return Some(Percent { mantissa: 100, shift: 0 });
        }
        let diff: u64 = (total - self.mantissa as u128) as u64;
        proof {
            lemma_pow2_pos(self.shift as nat);
            assert(diff as int == 100 * pow2(self.shift as nat) - self.mantissa);
            lemma_canon(diff as nat, self.shift as nat);
            let c = canon(diff as nat, self.shift as nat);
            lemma_pow2_pos((self.shift - c.1) as nat);
            assert(c.0 <= diff) by (nonlinear_arith)
                requires
                    c.0 * pow2((self.shift - c.1) as nat) == diff,
                    pow2((self.shift - c.1) as nat) > 0,
            ;
        }
        Some(canon_exec(diff, self.shift))
    }
}

/// Reduces `m / 2^s` to lowest terms.
fn canon_exec(m: u64, s: u16) -> (p: Percent)
    ensures
        p.mantissa == canon(m as nat, s as nat).0,
        p.shift == canon(m as nat, s as nat).1,
{
    let ghost m0 = m;
    let ghost s0 = s;
    let mut m = m;
    let mut s = s;
    while s > 0 && m % 2 == 0
        invariant
            canon(m as nat, s as nat) == canon(m0 as nat, s0 as nat),
        decreases s,
    {
        m = m / 2;
        s = s - 1;
    }
    Percent { mantissa: m, shift: s }
}

/// Clamps the binary64 value with IEEE-754 bits `bits` to `0..=100`.
pub fn percent_from_f64_bits(bits: u64) -> (p: Percent)
    ensures
        p == f64_percent(bits),
{
    proof {
        lemma2_to64();
        lemma_pow2_adds(32, 20);
        lemma_pow2_adds(52, 5);
    }
    let negative = bits >= 0x8000_0000_0000_0000u64;
    let biased: u64 = (bits / 0x10_0000_0000_0000u64) % 2048;
    let fraction: u64 = bits % 0x10_0000_0000_0000u64;
    let significand: u64 = if biased == 0 {
        fraction
    } else {
        fraction + 0x10_0000_0000_0000u64
    };
    let ghost e = f64_exponent(bits);
    let ghost sign: int = if negative { -1 } else { 1 };
    assert(significand == f64_significand(bits));
    if negative || significand == 0 {
        proof {
            lemma_pow2_pos(if e >= 0 { e as nat } else { 0 });
            assert(sign * f64_significand(bits) * pow2(if e >= 0 { e as nat } else { 0 }) <= 0) by (nonlinear_arith)
                requires
                    sign <= 0 || f64_significand(bits) == 0,
                    sign >= -1,
                    f64_significand(bits) >= 0,
                    pow2(if e >= 0 { e as nat } else { 0 }) > 0,
            ;
            assert(sign * f64_significand(bits) <= 0) by (nonlinear_arith)
                requires
                    sign <= 0 || f64_significand(bits) == 0,
                    f64_significand(bits) >= 0,
            ;
        }
        return Percent { mantissa: 0, shift: 0 };
    }
    if biased >= 1075 {
        proof {
            lemma_pow2_pos((e) as nat);
            assert(f64_significand(bits) * pow2(e as nat) >= 100) by (nonlinear_arith)
                requires
                    f64_significand(bits) >= 0x10_0000_0000_0000,
                    pow2(e as nat) >= 1,
            ;
        }
        return Percent { mantissa: 100, shift: 0 };
    }
    let shift: u16 = if biased == 0 { 1074 } else { (1075 - biased) as u16 };
    assert(shift as int == -e);
    if shift < 57 {
        proof {
            lemma_pow2_strictly_increases(shift as nat, 57);
            lemma_pow2_adds(52, 5);
        }
        let limit: u128 = 100 * pow2_u128(shift);
        if (significand as u128) >= limit {
            return Percent { mantissa: 100, shift: 0 };
        }
    } else {
        proof {
            if shift > 57 {
                lemma_pow2_strictly_increases(57, shift as nat);
            }
            assert(100 * pow2(shift as nat) > significand) by (nonlinear_arith)
                requires
                    pow2(shift as nat) >= pow2(57),
                    pow2(57) == pow2(52) * pow2(5),
                    pow2(52) == 0x10_0000_0000_0000,
                    pow2(5) == 32,
                    significand < 2 * 0x10_0000_0000_0000,
            ;
        }
    }
    canon_exec(significand, shift)
}

/// `Number::as_f64` of `n`, clamped to `0..=100`.
pub fn number_percent_exec(n: &JsonNumber) -> (p: Percent)
    ensures
        p == number_percent(*n),
{
    proof {
        lemma2_to64();
    }
    match n {
        JsonNumber::PosInt(u) => if *u >= 100 {
            Percent { mantissa: 100, shift: 0 }
        } else {
            canon_exec(*u, 0)
        },
        JsonNumber::NegInt(i) => if *i <= 0 {
            Percent { mantissa: 0, shift: 0 }
        } else if *i >= 100 {
            Percent { mantissa: 100, shift: 0 }
        } else {
            canon_exec(*i as u64, 0)
        },
        JsonNumber::Float { bits, .. } => percent_from_f64_bits(*bits),
    }
}

/// `and_then(Value::as_f64).unwrap_or(0.0).clamp(0.0, 100.0)` on an optional value.
pub fn percent_of_exec(v: Option<&JsonValue>) -> (p: Percent)
    ensures
        forall|w: Option<JsonValue>| crate::json::ref_matches(v, w) ==> p == percent_of(w),
{
    match v {
        Some(JsonValue::Number(n)) => number_percent_exec(n),
        _ => Percent { mantissa: 0, shift: 0 },
    }
}

/// Reducing to lowest terms only drops common factors of two: `canon(m, s)` is
/// `(m / 2^d, s - d)` for some `d <= s`.
proof fn lemma_canon(m: nat, s: nat)
    ensures
        canon(m, s).1 <= s,
        canon(m, s).0 * pow2((s - canon(m, s).1) as nat) == m,
    decreases s,
{
    if s > 0 && m % 2 == 0 {
        lemma_canon(m / 2, (s - 1) as nat);
        let c = canon(m / 2, (s - 1) as nat);
        assert(canon(m, s) == c);
        let d = (s - c.1) as nat;
        assert((d - 1) as nat == ((s - 1) as nat - c.1) as nat);
        assert(2 * (m / 2) == m);
        assert(d > 0);
        lemma_pow2_unfold(d);
        assert(c.0 * pow2((d - 1) as nat) == m / 2);
        assert(c.0 * pow2(d) == 2 * (c.0 * pow2((d - 1) as nat))) by (nonlinear_arith)
            requires
                pow2(d) == 2 * pow2((d - 1) as nat),
        ;
        assert(canon(m, s).0 * pow2((s - canon(m, s).1) as nat) == m);
    } else {
        lemma2_to64();
        assert(canon(m, s) == (m, s));
        assert((s - s) as nat == 0);
    }
}

proof fn lemma_clamp_in_range(num: int, s: nat)
    requires
        s < 0x10000,
        0 < num < 100 * pow2(s) ==> num < 0x1_0000_0000_0000_0000,
    ensures
        clamp_ratio(num, s).in_range(),
{
    lemma2_to64();
    if 0 < num < 100 * pow2(s) {
        lemma_canon(num as nat, s);
        let c = canon(num as nat, s);
        let d = (s - c.1) as nat;
        lemma_pow2_pos(d);
        lemma_pow2_pos(c.1);
        lemma_pow2_adds(c.1, d);
        assert(c.1 + d == s);
        assert(c.0 <= num) by (nonlinear_arith)
            requires
                c.0 * pow2(d) == num,
                pow2(d) > 0,
        ;
        assert(c.0 < 100 * pow2(c.1)) by (nonlinear_arith)
            requires
                c.0 * pow2(d) == num,
                num < 100 * (pow2(c.1) * pow2(d)),
                pow2(d) > 0,
        ;
    }
}

/// Every percentage read from the app-server lies between 0 and 100, whatever number it
/// sent: integers, negative values and binary64 values of any magnitude.
pub proof fn law_percentages_in_range(v: Option<JsonValue>)
    ensures
        percent_of(v).in_range(),
{
    lemma2_to64();
    match v {
        Some(JsonValue::Number(JsonNumber::PosInt(u))) => lemma_clamp_in_range(u as int, 0),
        Some(JsonValue::Number(JsonNumber::NegInt(i))) => lemma_clamp_in_range(i as int, 0),
        Some(JsonValue::Number(JsonNumber::Float { bits, .. })) => {
            let e = f64_exponent(bits);
            let sign: int = if f64_negative(bits) { -1 } else { 1 };
            if e >= 0 {
                lemma_clamp_in_range(sign * f64_significand(bits) * pow2(e as nat), 0);
            } else {
                assert(f64_significand(bits) < 0x20_0000_0000_0000);
                assert(0 <= f64_biased(bits) < 2048);
                assert(-e <= 1074);
                assert(sign * f64_significand(bits) <= f64_significand(bits)) by (nonlinear_arith)
                    requires
                        sign == 1 || sign == -1,
                        f64_significand(bits) >= 0,
                ;
                lemma_clamp_in_range(sign * f64_significand(bits), (-e) as nat);
            }
        },
        _ => {},
    }
}

} // verus!
