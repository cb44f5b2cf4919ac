//! Fixed-point monetary arithmetic.
//!
//! Money and prices are signed `i128` micro-units (six implied decimal places).
//! Every operation is specified over mathematical integers: saturation at the
//! `i128` bounds and Rust's truncating division are spelled out as spec
//! functions, so the contracts state exactly what the machine computes.

use vstd::prelude::*;

use crate::codec::{decimal_string, decimal_text, digit_char};

verus! {

/// Number of micro-units per whole unit (six decimal places).
pub const SCALE: i128 = 1_000_000;

/// Maximum absolute price in micro-USD (`$10_000_000`).
pub const MAX_PRICE: i128 = 10_000_000 * SCALE;

/// Maximum absolute size in micro-contracts (`10_000_000` contracts).
pub const MAX_SIZE: i128 = 10_000_000 * SCALE;

/// `x` clamped into the `i128` range: the result of a saturating operation.
pub open spec fn clamp_i128(x: int) -> int {
    if x > i128::MAX {
        i128::MAX as int
    } else if x < i128::MIN {
        i128::MIN as int
    } else {
        x
    }
}

/// Rust's truncating (round-toward-zero) integer division.
pub open spec fn trunc_div(x: int, d: int) -> int {
    if d == 0 {
        0
    } else if x == 0 {
        0
    } else if x > 0 && d > 0 {
        x / d
    } else if x < 0 && d < 0 {
        (-x) / (-d)
    } else if x < 0 {
        -((-x) / d)
    } else {
        -(x / (-d))
    }
}

/// `value * size / SCALE` with a saturating product and truncating division.
pub open spec fn spec_scaled_mul(value: int, size: int) -> int {
    trunc_div(clamp_i128(value * size), SCALE as int)
}

/// Saturating `i128` addition.
pub fn sat_add(a: i128, b: i128) -> (r: i128)
    ensures
        r == clamp_i128(a + b),
{
    match a.checked_add(b) {
        Some(v) => v,
        None => if b > 0 {
            i128::MAX
        } else {
            i128::MIN
        },
    }
}

/// Saturating `i128` subtraction.
pub fn sat_sub(a: i128, b: i128) -> (r: i128)
    ensures
        r == clamp_i128(a - b),
{
    match a.checked_sub(b) {
        Some(v) => v,
        None => if b < 0 {
            i128::MAX
        } else {
            i128::MIN
        },
    }
}

proof fn lemma_mul_sign(a: int, b: int)
    ensures
        (a > 0 && b > 0) ==> a * b > 0,
        (a < 0 && b < 0) ==> a * b > 0,
        (a > 0 && b < 0) ==> a * b < 0,
        (a < 0 && b > 0) ==> a * b < 0,
        (a == 0 || b == 0) ==> a * b == 0,
{
    assert((a > 0 && b > 0) ==> a * b > 0) by (nonlinear_arith);
    assert((a < 0 && b < 0) ==> a * b > 0) by (nonlinear_arith);
    assert((a > 0 && b < 0) ==> a * b < 0) by (nonlinear_arith);
    assert((a < 0 && b > 0) ==> a * b < 0) by (nonlinear_arith);
    assert((a == 0 || b == 0) ==> a * b == 0) by (nonlinear_arith);
}

/// Saturating `i128` multiplication.
pub fn sat_mul(a: i128, b: i128) -> (r: i128)
    ensures
        r == clamp_i128(a * b),
{
    match a.checked_mul(b) {
        Some(v) => v,
        None => {
            proof {
                lemma_mul_sign(a as int, b as int);
            }
            if (a > 0) == (b > 0) {
                i128::MAX
            } else {
                i128::MIN
            }
        },
    }
}

/// Truncating `i128` division by a positive divisor.
pub fn div_trunc(x: i128, d: i128) -> (r: i128)
    requires
        d > 0,
    ensures
        r == trunc_div(x as int, d as int),
{
    match x.checked_div(d) {
        Some(v) => v,
        None => {
            proof {
                assert(false) by {
                    if x < 0 {
                        assert((-x) / (d as int) <= -x) by (nonlinear_arith)
                            requires
                                -x > 0,
                                d > 0,
                        ;
                        assert((-x) / (d as int) >= 0) by (nonlinear_arith)
                            requires
                                -x > 0,
                                d > 0,
                        ;
                    } else if x > 0 {
                        assert((x as int) / (d as int) <= x) by (nonlinear_arith)
                            requires
                                x > 0,
                                d > 0,
                        ;
                        assert((x as int) / (d as int) >= 0) by (nonlinear_arith)
                            requires
                                x > 0,
                                d > 0,
                        ;
                    }
                }
            }
            0
        },
    }
}

/// A signed USD amount in micro-dollars (6 dp).
#[derive(Debug, Clone, Copy, PartialEq, Eq, Structural, PartialOrd, Ord, Hash)]
pub struct Usd(i128);

impl View for Usd {
    type V = int;

    closed spec fn view(&self) -> int {
        self.0 as int
    }
}

/// Two amounts are equal exactly when their micro values are.
pub broadcast proof fn lemma_usd_view_eq(a: Usd, b: Usd)
    ensures
        #![trigger a@, b@]
        (a@ == b@) == (a == b),
{
}

/// The amount holding exactly `micros` micro-USD.
pub closed spec fn spec_usd(micros: i128) -> Usd {
    Usd(micros)
}

/// The view of [`spec_usd`] is its argument.
pub broadcast proof fn lemma_spec_usd(micros: i128)
    ensures
        #[trigger] spec_usd(micros)@ == micros,
{
}

/// Every amount fits in an `i128`.
pub broadcast proof fn lemma_usd_range(a: Usd)
    ensures
        #[trigger] a@ >= i128::MIN && a@ <= i128::MAX,
{
}

impl Usd {
    /// Construct from raw micro-USD.
    pub fn from_micros(micros: i128) -> (r: Usd)
        ensures
            r@ == micros,
    {
        Usd(micros)
    }

    /// The zero amount.
    pub fn zero() -> (r: Usd)
        ensures
            r@ == 0,
    {
        Usd(0)
    }

    /// Construct from a whole-dollar amount.
    pub fn from_whole(dollars: i64) -> (r: Usd)
        ensures
            r@ == dollars * SCALE,
    {
        assert(dollars * 1_000_000 <= i128::MAX && dollars * 1_000_000 >= i128::MIN)
            by (nonlinear_arith)
            requires
                dollars <= i64::MAX,
                dollars >= i64::MIN,
        ;
        Usd(dollars as i128 * SCALE)
    }

    /// Raw micro-USD value.
    pub fn micros(self) -> (r: i128)
        ensures
            r == self@,
    {
        self.0
    }

    /// Whether the amount is negative.
    pub fn is_negative(self) -> (r: bool)
        ensures
            r == (self@ < 0),
    {
        self.0 < 0
    }

    /// Saturating addition.
    pub fn saturating_add(self, other: Usd) -> (r: Usd)
        ensures
            r@ == clamp_i128(self@ + other@),
    {
        Usd(sat_add(self.0, other.0))
    }

    /// Saturating subtraction.
    pub fn saturating_sub(self, other: Usd) -> (r: Usd)
        ensures
            r@ == clamp_i128(self@ - other@),
    {
        Usd(sat_sub(self.0, other.0))
    }

    /// Saturating negation.
    pub fn saturating_neg(self) -> (r: Usd)
        ensures
            r@ == clamp_i128(-self@),
    {
        Usd(sat_sub(0, self.0))
    }

    /// Multiply by basis points (`bps`/10_000), rounding toward zero.
    pub fn mul_bps(self, bps: i64) -> (r: Usd)
        ensures
            r@ == trunc_div(clamp_i128(self@ * bps), 10_000),
    {
        Usd(div_trunc(sat_mul(self.0, bps as i128), 10_000))
    }

    /// The larger of two amounts.
    pub fn max(self, other: Usd) -> (r: Usd)
        ensures
            r@ == if self@ >= other@ { self@ } else { other@ },
    {
        if self.0 >= other.0 {
            self
        } else {
            other
        }
    }

    /// The smaller of two amounts.
    pub fn min(self, other: Usd) -> (r: Usd)
        ensures
            r@ == if self@ <= other@ { self@ } else { other@ },
    {
        if self.0 <= other.0 {
            self
        } else {
            other
        }
    }

    /// The whole-dollar part and the absolute six-digit fraction used when the
    /// amount is rendered as `"{whole}.{frac:06} USD"`.
    pub fn display_parts(self) -> (r: (i128, i128))
        ensures
            r.0 == trunc_div(self@, SCALE as int),
            r.1 == if self@ >= 0 { self@ - trunc_div(self@, SCALE as int) * SCALE } else {
                trunc_div(self@, SCALE as int) * SCALE - self@
            },
    {
        let whole = div_trunc(self.0, SCALE);
        proof {
            lemma_trunc_div_bounds(self.0 as int, SCALE as int);
        }
        let rem = self.0 - whole * SCALE;
        let frac = if rem >= 0 {
            rem
        } else {
            -rem
        };
        proof {
            if self.0 >= 0 {
                assert(rem >= 0);
            }
        }
        (whole, frac)
    }
}

impl core::ops::Add for Usd {
    type Output = Usd;

    /// Saturating addition.
    fn add(self, rhs: Usd) -> (r: Usd)
        ensures
            r@ == clamp_i128(self@ + rhs@),
    {
        proof {
            lemma_usd_range(self);
            lemma_usd_range(rhs);
        }
        let r = self.saturating_add(rhs);
        assert(r == spec_usd(clamp_i128(self@ + rhs@) as i128)) by {
            lemma_spec_usd(clamp_i128(self@ + rhs@) as i128);
            lemma_usd_view_eq(r, spec_usd(clamp_i128(self@ + rhs@) as i128));
        }
        r
    }
}

impl vstd::std_specs::ops::AddSpecImpl for Usd {
    open spec fn obeys_add_spec() -> bool {
        true
    }

    open spec fn add_req(self, rhs: Usd) -> bool {
        true
    }

    open spec fn add_spec(self, rhs: Usd) -> Usd {
        spec_usd(clamp_i128(self@ + rhs@) as i128)
    }
}

impl core::ops::Sub for Usd {
    type Output = Usd;

    /// Saturating subtraction.
    fn sub(self, rhs: Usd) -> (r: Usd)
        ensures
            r@ == clamp_i128(self@ - rhs@),
    {
        let r = self.saturating_sub(rhs);
        assert(r == spec_usd(clamp_i128(self@ - rhs@) as i128)) by {
            lemma_spec_usd(clamp_i128(self@ - rhs@) as i128);
            lemma_usd_view_eq(r, spec_usd(clamp_i128(self@ - rhs@) as i128));
        }
        r
    }
}

impl vstd::std_specs::ops::SubSpecImpl for Usd {
    open spec fn obeys_sub_spec() -> bool {
        true
    }

    open spec fn sub_req(self, rhs: Usd) -> bool {
        true
    }

    open spec fn sub_spec(self, rhs: Usd) -> Usd {
        spec_usd(clamp_i128(self@ - rhs@) as i128)
    }
}

impl core::ops::Neg for Usd {
    type Output = Usd;

    /// Saturating negation.
    fn neg(self) -> (r: Usd)
        ensures
            r@ == clamp_i128(-self@),
    {
        let r = self.saturating_neg();
        assert(r == spec_usd(clamp_i128(-self@) as i128)) by {
            lemma_spec_usd(clamp_i128(-self@) as i128);
            lemma_usd_view_eq(r, spec_usd(clamp_i128(-self@) as i128));
        }
        r
    }
}

impl vstd::std_specs::ops::NegSpecImpl for Usd {
    open spec fn obeys_neg_spec() -> bool {
        true
    }

    open spec fn neg_req(self) -> bool {
        true
    }

    open spec fn neg_spec(self) -> Usd {
        spec_usd(clamp_i128(-self@) as i128)
    }
}

/// The six-digit, zero-padded text of a fraction `0..1_000_000`.
pub open spec fn six_digits(f: int) -> Seq<char> {
    seq![
        digit_char((f / 100_000) % 10),
        digit_char((f / 10_000) % 10),
        digit_char((f / 1_000) % 10),
        digit_char((f / 100) % 10),
        digit_char((f / 10) % 10),
        digit_char(f % 10),
    ]
}

/// How an amount is written: `"{whole}.{frac:06} USD"`, the whole part
/// truncated toward zero and the fraction taken by absolute value.
pub open spec fn usd_text(micros: int) -> Seq<char> {
    let whole = trunc_div(micros, SCALE as int);
    let frac = if micros >= 0 {
        micros - whole * SCALE
    } else {
        whole * SCALE - micros
    };
    decimal_text(whole) + "."@ + six_digits(frac) + " USD"@
}

impl Usd {
    /// The amount as text, e.g. `"12.500000 USD"`.
    pub fn to_text(self) -> (r: String)
        ensures
            r@ == usd_text(self@),
    {
        let (whole, frac) = self.display_parts();
        proof {
            lemma_trunc_div_bounds(self@, SCALE as int);
        }
        let mut s = decimal_string(whole);
        s.append(".");
        let mut div: i128 = 100_000;
        let ghost mut done: Seq<char> = Seq::empty();
        let mut k: usize = 0;
        while k < 6
            invariant
                0 <= frac < 1_000_000,
                k <= 6,
                div == (if k == 0 {
                    100_000i128
                } else if k == 1 {
                    10_000i128
                } else if k == 2 {
                    1_000i128
                } else if k == 3 {
                    100i128
                } else if k == 4 {
                    10i128
                } else if k == 5 {
                    1i128
                } else {
                    0i128
                }),
                s@ == decimal_text(whole as int) + "."@ + six_digits(frac as int).take(k as int),
            decreases 6 - k,
        {
            let d: u8 = ((frac / div) % 10) as u8;
            let t = crate::codec::digit_str(d);
            s.append(t);
            proof {
                assert(six_digits(frac as int).take(k + 1) =~= six_digits(frac as int).take(k as int).push(
                    digit_char(((frac / div) % 10) as int),
                ));
            }
            div = div / 10;
            k = k + 1;
        }
        assert(six_digits(frac as int).take(6) =~= six_digits(frac as int));
        s.append(" USD");
        s
    }
}

/// Facts about truncating division by a positive divisor.
pub proof fn lemma_trunc_div_bounds(x: int, d: int)
    requires
        d > 0,
    ensures
        x >= 0 ==> 0 <= x - trunc_div(x, d) * d < d,
        x <= 0 ==> -d < x - trunc_div(x, d) * d <= 0,
        x >= 0 ==> 0 <= trunc_div(x, d) <= x,
        x <= 0 ==> x <= trunc_div(x, d) <= 0,
{
    if x > 0 {
        assert(0 <= x - (x / d) * d < d) by (nonlinear_arith)
            requires
                x > 0,
                d > 0,
        ;
        assert(0 <= x / d <= x) by (nonlinear_arith)
            requires
                x > 0,
                d > 0,
        ;
    } else if x < 0 {
        let y = -x;
        assert(0 <= y - (y / d) * d < d) by (nonlinear_arith)
            requires
                y > 0,
                d > 0,
        ;
        assert(0 <= y / d <= y) by (nonlinear_arith)
            requires
                y > 0,
                d > 0,
        ;
        let q = y / d;
        assert((-q) * d == -(q * d)) by (nonlinear_arith);
    }
}

/// Compute `value * size / SCALE` in `i128` with saturating multiplication.
///
/// Used to turn a per-contract `price` and a `size` (both 6-dp micro-units)
/// into a notional micro-USD amount at the correct scale.
pub fn scaled_mul(value: i128, size: i128) -> (r: i128)
    ensures
        r == spec_scaled_mul(value as int, size as int),
{
    div_trunc(sat_mul(value, size), SCALE)
}

} // verus!
