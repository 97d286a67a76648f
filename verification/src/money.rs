//! Exact decimal money.
//!
//! A `Money` is a signed integer mantissa together with a scale: the number
//! of decimal digits that follow the point. Its value is
//! `mantissa / 10^scale`. Text is read and written by `rust_decimal`, so the
//! bounds are those of its `Decimal`: 96 bits of mantissa, a scale of at most
//! 28. Arithmetic is exact: an operation whose result does not fit reports
//! that instead of rounding.

use vstd::prelude::*;

verus! {

/// The largest scale a `Money` can have.
pub const MAX_SCALE: u32 = 28;

/// The largest magnitude of a mantissa: `2^96 - 1`.
pub const MAX_MANTISSA: i128 = 0xFFFF_FFFF_FFFF_FFFF_FFFF_FFFF;

/// `10^n`.
pub open spec fn pow10(n: nat) -> int
    decreases n,
{
    if n == 0 {
        1
    } else {
        10 * pow10((n - 1) as nat)
    }
}

/// The magnitude of an integer.
pub open spec fn magnitude(x: int) -> int {
    if x < 0 {
        -x
    } else {
        x
    }
}

/// `m / d` rounded to the nearest integer, a tie going to the even
/// neighbour; `d` is positive.
pub open spec fn round_half_even(m: int, d: int) -> int {
    let a = magnitude(m);
    let q = a / d;
    let r = a % d;
    let up = 2 * r > d || (2 * r == d && q % 2 == 1);
    let q2 = if up {
        q + 1
    } else {
        q
    };
    if m < 0 {
        -q2
    } else {
        q2
    }
}

/// The powers of ten that a scale can call for.
pub proof fn lemma_pow10_values()
    ensures
        pow10(0) == 1,
        pow10(1) == 10,
        pow10(2) == 100,
        pow10(3) == 1000,
        pow10(4) == 10000,
        pow10(5) == 100000,
        pow10(6) == 1000000,
        pow10(7) == 10000000,
        pow10(8) == 100000000,
        pow10(9) == 1000000000,
        pow10(10) == 10000000000,
        pow10(11) == 100000000000,
        pow10(12) == 1000000000000,
        pow10(13) == 10000000000000,
        pow10(14) == 100000000000000,
        pow10(15) == 1000000000000000,
        pow10(16) == 10000000000000000,
        pow10(17) == 100000000000000000,
        pow10(18) == 1000000000000000000,
        pow10(19) == 10000000000000000000,
        pow10(20) == 100000000000000000000,
        pow10(21) == 1000000000000000000000,
        pow10(22) == 10000000000000000000000,
        pow10(23) == 100000000000000000000000,
        pow10(24) == 1000000000000000000000000,
        pow10(25) == 10000000000000000000000000,
        pow10(26) == 100000000000000000000000000,
        pow10(27) == 1000000000000000000000000000,
        pow10(28) == 10000000000000000000000000000,
{
    assert(pow10(1) == 10 * pow10(0));
    assert(pow10(2) == 10 * pow10(1));
    assert(pow10(3) == 10 * pow10(2));
    assert(pow10(4) == 10 * pow10(3));
    assert(pow10(5) == 10 * pow10(4));
    assert(pow10(6) == 10 * pow10(5));
    assert(pow10(7) == 10 * pow10(6));
    assert(pow10(8) == 10 * pow10(7));
    assert(pow10(9) == 10 * pow10(8));
    assert(pow10(10) == 10 * pow10(9));
    assert(pow10(11) == 10 * pow10(10));
    assert(pow10(12) == 10 * pow10(11));
    assert(pow10(13) == 10 * pow10(12));
    assert(pow10(14) == 10 * pow10(13));
    assert(pow10(15) == 10 * pow10(14));
    assert(pow10(16) == 10 * pow10(15));
    assert(pow10(17) == 10 * pow10(16));
    assert(pow10(18) == 10 * pow10(17));
    assert(pow10(19) == 10 * pow10(18));
    assert(pow10(20) == 10 * pow10(19));
    assert(pow10(21) == 10 * pow10(20));
    assert(pow10(22) == 10 * pow10(21));
    assert(pow10(23) == 10 * pow10(22));
    assert(pow10(24) == 10 * pow10(23));
    assert(pow10(25) == 10 * pow10(24));
    assert(pow10(26) == 10 * pow10(25));
    assert(pow10(27) == 10 * pow10(26));
    assert(pow10(28) == 10 * pow10(27));
}

/// Powers of ten are positive.
pub proof fn lemma_pow10_positive(n: nat)
    ensures
        pow10(n) >= 1,
    decreases n,
{
    if n > 0 {
        lemma_pow10_positive((n - 1) as nat);
    }
}

/// `10^(a+b) = 10^a * 10^b`.
pub proof fn lemma_pow10_add(a: nat, b: nat)
    ensures
        pow10(a + b) == pow10(a) * pow10(b),
    decreases a,
{
    if a > 0 {
        lemma_pow10_add((a - 1) as nat, b);
        assert(pow10(a + b) == 10 * pow10((a - 1 + b) as nat));
        assert(10 * (pow10((a - 1) as nat) * pow10(b)) == (10 * pow10((a - 1) as nat)) * pow10(b))
            by (nonlinear_arith);
    } else {
        assert(pow10(a + b) == pow10(b));
        assert(1 * pow10(b) == pow10(b));
    }
}

/// The value of an amount, taken through any scale `s` that is at least its
/// own: first the mantissa at scale `s`, then the rest of the way.
pub proof fn lemma_units_at(m: Money, s: u32)
    requires
        m.scale <= s <= MAX_SCALE,
    ensures
        m.units() == (m.mantissa * pow10((s - m.scale) as nat)) * pow10((MAX_SCALE - s) as nat),
{
    lemma_pow10_add((s - m.scale) as nat, (MAX_SCALE - s) as nat);
    let a = pow10((s - m.scale) as nat);
    let b = pow10((MAX_SCALE - s) as nat);
    assert((s - m.scale) as nat + (MAX_SCALE - s) as nat == (MAX_SCALE - m.scale) as nat);
    assert(m.mantissa * (a * b) == (m.mantissa * a) * b) by (nonlinear_arith);
}

/// Multiplying both sides by a positive number keeps their order.
pub proof fn lemma_scaled_order(x: int, y: int, t: int)
    requires
        t >= 1,
    ensures
        (x < y) == (x * t < y * t),
        (x == y) == (x * t == y * t),
{
    assert((x < y) == (x * t < y * t)) by (nonlinear_arith)
        requires
            t >= 1,
    ;
    assert((x == y) == (x * t == y * t)) by (nonlinear_arith)
        requires
            t >= 1,
    ;
}

/// A product with a positive factor has the sign of the other factor.
pub proof fn lemma_product_sign(x: int, t: int)
    requires
        t >= 1,
    ensures
        (x > 0) == (x * t > 0),
        (x < 0) == (x * t < 0),
{
    assert((x > 0) == (x * t > 0)) by (nonlinear_arith)
        requires
            t >= 1,
    ;
    assert((x < 0) == (x * t < 0)) by (nonlinear_arith)
        requires
            t >= 1,
    ;
}

/// A sum that fits has the value of its two terms together.
pub proof fn lemma_add_units(a: Money, b: Money)
    requires
        a.wf(),
        b.wf(),
        a.add_spec(b) is Some,
    ensures
        a.add_spec(b)->0.units() == a.units() + b.units(),
        a.add_spec(b)->0.scale == if a.scale >= b.scale {
            a.scale
        } else {
            b.scale
        },
        a.add_spec(b)->0.wf(),
{
    let s = if a.scale >= b.scale {
        a.scale
    } else {
        b.scale
    };
    lemma_units_at(a, s);
    lemma_units_at(b, s);
    let x = a.mantissa * pow10((s - a.scale) as nat);
    let y = b.mantissa * pow10((s - b.scale) as nat);
    let t = pow10((MAX_SCALE - s) as nat);
    assert((x + y) * t == x * t + y * t) by (nonlinear_arith);
}

/// `10^k` for a scale.
pub fn ten_to(k: u32) -> (r: i128)
    requires
        k <= MAX_SCALE,
    ensures
        r == pow10(k as nat),
        1 <= r <= 10000000000000000000000000000,
{
    proof {
        lemma_pow10_values();
    }
    match k {
        0 => 1,
        1 => 10,
        2 => 100,
        3 => 1000,
        4 => 10000,
        5 => 100000,
        6 => 1000000,
        7 => 10000000,
        8 => 100000000,
        9 => 1000000000,
        10 => 10000000000,
        11 => 100000000000,
        12 => 1000000000000,
        13 => 10000000000000,
        14 => 100000000000000,
        15 => 1000000000000000,
        16 => 10000000000000000,
        17 => 100000000000000000,
        18 => 1000000000000000000,
        19 => 10000000000000000000,
        20 => 100000000000000000000,
        21 => 1000000000000000000000,
        22 => 10000000000000000000000,
        23 => 100000000000000000000000,
        24 => 1000000000000000000000000,
        25 => 10000000000000000000000000,
        26 => 100000000000000000000000000,
        27 => 1000000000000000000000000000,
        _ => 10000000000000000000000000000,
    }
}

/// `m * 10^k`, as long as its magnitude is at most twice the largest
/// mantissa: enough room to add one more mantissa and still tell whether the
/// sum fits.
fn scale_up(m: i128, k: u32) -> (r: Option<i128>)
    requires
        -MAX_MANTISSA <= m <= MAX_MANTISSA,
        k <= MAX_SCALE,
    ensures
        r == if magnitude(m * pow10(k as nat)) <= 2 * MAX_MANTISSA {
            Some((m * pow10(k as nat)) as i128)
        } else {
            None
        },
{
    let p: i128 = ten_to(k);
    let lim: i128 = (2 * MAX_MANTISSA) / p;
    let a: i128 = if m < 0 {
        -m
    } else {
        m
    };
    proof {
        let power = p as int;
        let size = a as int;
        let limit = lim as int;
        assert(limit == (2 * MAX_MANTISSA) / power);
        assert(limit * power <= 2 * MAX_MANTISSA && 2 * MAX_MANTISSA < (limit + 1) * power) by {
            vstd::arithmetic::div_mod::lemma_fundamental_div_mod(2 * MAX_MANTISSA as int, power);
            vstd::arithmetic::div_mod::lemma_mod_bound(2 * MAX_MANTISSA as int, power);
            assert(power * limit == limit * power) by (nonlinear_arith);
            assert((limit + 1) * power == limit * power + power) by (nonlinear_arith);
        }
        if size <= limit {
            assert(size * power <= limit * power) by (nonlinear_arith)
                requires
                    size <= limit,
                    power >= 1,
            ;
        } else {
            assert(size * power >= (limit + 1) * power) by (nonlinear_arith)
                requires
                    size >= limit + 1,
                    power >= 1,
            ;
        }
        assert(magnitude(m * power) == size * power) by (nonlinear_arith)
            requires
                size == magnitude(m as int),
                power >= 1,
        ;
    }
    if a > lim {
        None
    } else {
        assert(-2 * MAX_MANTISSA <= m * p <= 2 * MAX_MANTISSA);
        Some(m * p)
    }
}

/// What `rust_decimal` reads from a decimal literal without rounding: the
/// mantissa and the scale, or `None` where it rejects the text.
pub uninterp spec fn exact_decimal(text: Seq<char>) -> Option<(int, nat)>;

/// The text that `rust_decimal` writes for a mantissa and a scale.
pub uninterp spec fn decimal_text(mantissa: int, scale: nat) -> Seq<char>;

/// What `rust_decimal` gives for the product of two decimals, each given by
/// mantissa and scale, or `None` where the product overflows.
pub uninterp spec fn decimal_product(am: int, asc: nat, bm: int, bsc: nat) -> Option<(int, nat)>;

#[verifier::external_type_specification]
#[verifier::external_body]
pub struct ExDecimalError(rust_decimal::Error);

/// Why a text was not accepted as money.
#[derive(Debug, Clone, Copy, PartialEq, Eq, Structural)]
pub enum MoneyError {
    /// The text is not a decimal literal that can be held exactly.
    Malformed,
}

/// An exact decimal amount.
#[derive(Debug, Clone, Copy, PartialEq, Eq, Structural)]
pub struct Money {
    pub mantissa: i128,
    pub scale: u32,
}

impl Money {
    /// The bounds every `Money` keeps.
    pub open spec fn wf(self) -> bool {
        &&& -MAX_MANTISSA <= self.mantissa <= MAX_MANTISSA
        &&& self.scale <= MAX_SCALE
    }

    /// The value in units of `10^-28`, the finest a `Money` can resolve.
    pub open spec fn units(self) -> int {
        self.mantissa * pow10((MAX_SCALE - self.scale) as nat)
    }

    /// Whether two amounts are the same number, whatever their scales.
    pub open spec fn same_value(self, other: Money) -> bool {
        self.units() == other.units()
    }

    pub open spec fn zero_spec() -> Money {
        Money { mantissa: 0, scale: 0 }
    }

    pub open spec fn negate_spec(self) -> Money {
        Money { mantissa: (-self.mantissa) as i128, scale: self.scale }
    }

    pub open spec fn abs_spec(self) -> Money {
        Money { mantissa: magnitude(self.mantissa as int) as i128, scale: self.scale }
    }

    /// The exact sum at the larger of the two scales, where it fits.
    pub open spec fn add_spec(self, other: Money) -> Option<Money> {
        let s = if self.scale >= other.scale {
            self.scale
        } else {
            other.scale
        };
        let m = self.mantissa * pow10((s - self.scale) as nat) + other.mantissa * pow10(
            (s - other.scale) as nat,
        );
        if -MAX_MANTISSA <= m <= MAX_MANTISSA {
            Some(Money { mantissa: m as i128, scale: s })
        } else {
            None
        }
    }

    pub open spec fn sub_spec(self, other: Money) -> Option<Money> {
        self.add_spec(other.negate_spec())
    }

    /// The amount at no more than `places` decimal places, ties to even.
    pub open spec fn round_spec(self, places: u32) -> Money {
        if self.scale <= places {
            self
        } else {
            Money {
                mantissa: round_half_even(
                    self.mantissa as int,
                    pow10((self.scale - places) as nat),
                ) as i128,
                scale: places,
            }
        }
    }

    /// The amount read from a text, as far as `rust_decimal` accepts it.
    pub open spec fn parse_spec(text: Seq<char>) -> Option<Money> {
        match exact_decimal(text) {
            Some((m, s)) => Some(Money { mantissa: m as i128, scale: s as u32 }),
            None => None,
        }
    }

    /// The product as `rust_decimal` computes it: exact where the exact
    /// product fits, else rounded to fit, `None` on overflow.
    pub open spec fn mul_spec(self, other: Money) -> Option<Money> {
        match decimal_product(
            self.mantissa as int,
            self.scale as nat,
            other.mantissa as int,
            other.scale as nat,
        ) {
            Some((m, s)) => Some(Money { mantissa: m as i128, scale: s as u32 }),
            None => None,
        }
    }

    /// The text written for the amount.
    pub open spec fn text(self) -> Seq<char> {
        decimal_text(self.mantissa as int, self.scale as nat)
    }

    pub fn zero() -> (r: Money)
        ensures
            r == Money::zero_spec(),
            r.wf(),
    {
        Money { mantissa: 0, scale: 0 }
    }

    /// An amount from its parts, where they are within bounds.
    pub fn new(mantissa: i128, scale: u32) -> (r: Option<Money>)
        ensures
            r == if (Money { mantissa, scale }).wf() {
                Some(Money { mantissa, scale })
            } else {
                None
            },
    {
        if scale <= MAX_SCALE && -MAX_MANTISSA <= mantissa && mantissa <= MAX_MANTISSA {
            Some(Money { mantissa, scale })
        } else {
            None
        }
    }

    /// Whether the parts are within bounds.
    pub fn is_valid(&self) -> (r: bool)
        ensures
            r == self.wf(),
    {
        self.scale <= MAX_SCALE && -MAX_MANTISSA <= self.mantissa && self.mantissa <= MAX_MANTISSA
    }

    pub fn is_zero(&self) -> (r: bool)
        ensures
            r == (self.mantissa == 0),
    {
        self.mantissa == 0
    }

    pub fn is_negative(&self) -> (r: bool)
        ensures
            r == (self.mantissa < 0),
    {
        self.mantissa < 0
    }

    pub fn negate(&self) -> (r: Money)
        requires
            self.wf(),
        ensures
            r == self.negate_spec(),
            r.wf(),
    {
        Money { mantissa: -self.mantissa, scale: self.scale }
    }

    pub fn abs(&self) -> (r: Money)
        requires
            self.wf(),
        ensures
            r == self.abs_spec(),
            r.wf(),
            r.mantissa >= 0,
    {
        if self.mantissa < 0 {
            Money { mantissa: -self.mantissa, scale: self.scale }
        } else {
            *self
        }
    }

    /// Reads a decimal literal exactly. A text that `rust_decimal` rejects,
    /// or could only hold after rounding, is `Malformed`.
    pub fn parse(text: &str) -> (r: Result<Money, MoneyError>)
        ensures
            r is Ok <==> Money::parse_spec(text@) is Some,
            r matches Ok(m) ==> Money::parse_spec(text@) == Some(m) && m.wf(),
            r matches Err(e) ==> e == MoneyError::Malformed,
    {
        match decimal_from_str_exact(text) {
            Ok(m) => Ok(m),
            Err(_) => Err(MoneyError::Malformed),
        }
    }

    /// The exact sum, or `None` where it does not fit the mantissa.
    pub fn checked_add(&self, other: &Money) -> (r: Option<Money>)
        requires
            self.wf(),
            other.wf(),
        ensures
            r == self.add_spec(*other),
            r matches Some(m) ==> m.wf(),
    {
        proof {
            assert(pow10(0) == 1);
        }
        if self.scale >= other.scale {
            match scale_up(other.mantissa, self.scale - other.scale) {
                Some(x) => {
                    let m: i128 = self.mantissa + x;
                    if -MAX_MANTISSA <= m && m <= MAX_MANTISSA {
                        Some(Money { mantissa: m, scale: self.scale })
                    } else {
                        None
                    }
                },
                None => None,
            }
        } else {
            match scale_up(self.mantissa, other.scale - self.scale) {
                Some(x) => {
                    let m: i128 = x + other.mantissa;
                    if -MAX_MANTISSA <= m && m <= MAX_MANTISSA {
                        Some(Money { mantissa: m, scale: other.scale })
                    } else {
                        None
                    }
                },
                None => None,
            }
        }
    }

    /// The exact difference, or `None` where it does not fit the mantissa.
    pub fn checked_sub(&self, other: &Money) -> (r: Option<Money>)
        requires
            self.wf(),
            other.wf(),
        ensures
            r == self.sub_spec(*other),
            r matches Some(m) ==> m.wf(),
    {
        let neg = other.negate();
        self.checked_add(&neg)
    }

    /// Rounds to at most `places` decimal places, a tie going to the even
    /// digit. An amount that has no more places than that is returned as it
    /// is.
    pub fn round(&self, places: u32) -> (r: Money)
        requires
            self.wf(),
        ensures
            r == self.round_spec(places),
            r.wf(),
    {
        if self.scale <= places {
            *self
        } else {
            let k: u32 = self.scale - places;
            let p: i128 = ten_to(k);
            proof {
                lemma_pow10_positive((k - 1) as nat);
                assert(pow10(k as nat) == 10 * pow10((k - 1) as nat));
            }
            let a: i128 = if self.mantissa < 0 {
                -self.mantissa
            } else {
                self.mantissa
            };
            let q: i128 = a / p;
            let rem: i128 = a % p;
            proof {
                let size = a as int;
                let power = p as int;
                vstd::arithmetic::div_mod::lemma_fundamental_div_mod(size, power);
                vstd::arithmetic::div_mod::lemma_mod_bound(size, power);
                assert(0 <= size / power) by (nonlinear_arith)
                    requires
                        size >= 0,
                        power >= 10,
                ;
                assert(10 * (size / power) <= size) by (nonlinear_arith)
                    requires
                        size == power * (size / power) + size % power,
                        0 <= size % power,
                        power >= 10,
                        0 <= size / power,
                ;
            }
            let up: bool = 2 * rem > p || (2 * rem == p && q % 2 == 1);
            let q2: i128 = if up {
                q + 1
            } else {
                q
            };
            let m: i128 = if self.mantissa < 0 {
                -q2
            } else {
                q2
            };
            Money { mantissa: m, scale: places }
        }
    }

    /// Whether the amount is smaller than another, by value.
    pub fn less_than(&self, other: &Money) -> (r: bool)
        requires
            self.wf(),
            other.wf(),
        ensures
            r == (self.units() < other.units()),
    {
        proof {
            assert(pow10(0) == 1);
            lemma_pow10_positive((self.scale - other.scale) as nat);
            lemma_pow10_positive((other.scale - self.scale) as nat);
            lemma_units_at(*self, if self.scale >= other.scale { self.scale } else { other.scale });
            lemma_units_at(*other, if self.scale >= other.scale { self.scale } else { other.scale });
            lemma_pow10_positive(
                (MAX_SCALE - if self.scale >= other.scale {
                    self.scale
                } else {
                    other.scale
                }) as nat,
            );
        }
        if self.scale >= other.scale {
            let ghost t = pow10((MAX_SCALE - self.scale) as nat);
            let ghost y = other.mantissa * pow10((self.scale - other.scale) as nat);
            proof {
                lemma_scaled_order(self.mantissa as int, y, t);
                lemma_product_sign(other.mantissa as int, pow10((self.scale - other.scale) as nat));
                assert(self.units() == (self.mantissa * 1) * t);
            }
            match scale_up(other.mantissa, self.scale - other.scale) {
                Some(x) => self.mantissa < x,
                None => other.mantissa > 0,
            }
        } else {
            let ghost t = pow10((MAX_SCALE - other.scale) as nat);
            let ghost y = self.mantissa * pow10((other.scale - self.scale) as nat);
            proof {
                lemma_scaled_order(y, other.mantissa as int, t);
                lemma_product_sign(self.mantissa as int, pow10((other.scale - self.scale) as nat));
                assert(other.units() == (other.mantissa * 1) * t);
            }
            match scale_up(self.mantissa, other.scale - self.scale) {
                Some(x) => x < other.mantissa,
                None => self.mantissa < 0,
            }
        }
    }

    /// Whether two amounts are the same number, whatever their scales.
    pub fn equals(&self, other: &Money) -> (r: bool)
        requires
            self.wf(),
            other.wf(),
        ensures
            r == self.same_value(*other),
    {
        !self.less_than(other) && !other.less_than(self)
    }

    /// The product of two amounts, as `rust_decimal` multiplies.
    pub fn checked_mul(&self, other: &Money) -> (r: Option<Money>)
        requires
            self.wf(),
            other.wf(),
        ensures
            r == self.mul_spec(*other),
            r matches Some(m) ==> m.wf(),
    {
        decimal_checked_mul(self, other)
    }

    /// Reads a decimal literal and writes it again. The text that comes out
    /// reads as the same amount as the text that went in.
    pub fn normalize(text: &str) -> (r: Result<String, MoneyError>)
        ensures
            r is Ok <==> Money::parse_spec(text@) is Some,
            r matches Ok(t) ==> t@ == Money::parse_spec(text@)->0.text() && Money::parse_spec(t@)
                == Money::parse_spec(text@),
            r matches Err(e) ==> e == MoneyError::Malformed,
    {
        match Money::parse(text) {
            Ok(m) => Ok(m.format()),
            Err(e) => Err(e),
        }
    }

    /// Writes the amount with exactly `scale` digits after the point. Reading
    /// the text again gives the same amount.
    pub fn format(&self) -> (r: String)
        requires
            self.wf(),
        ensures
            r@ == self.text(),
            Money::parse_spec(r@) == Some(*self),
    {
        decimal_to_string(self)
    }
}

/// Calls `rust_decimal::Decimal::from_str_exact` and takes the result apart
/// with `Decimal::mantissa` and `Decimal::scale`. Claimed: the outcome is a
/// function of the text alone, and a decimal that was read is within the
/// crate's documented bounds of 96 bits and a scale of at most 28.
#[verifier::external_body]
fn decimal_from_str_exact(text: &str) -> (r: Result<Money, rust_decimal::Error>)
    ensures
        r is Ok <==> exact_decimal(text@) is Some,
        r matches Ok(m) ==> m.wf() && exact_decimal(text@) == Some(
            (m.mantissa as int, m.scale as nat),
        ),
{
    match rust_decimal::Decimal::from_str_exact(text) {
        Ok(d) => Ok(Money { mantissa: d.mantissa(), scale: d.scale() }),
        Err(e) => Err(e),
    }
}

/// Builds a `rust_decimal::Decimal` with `Decimal::from_i128_with_scale`,
/// which panics outside the bounds that `wf` states, and writes it with its
/// `Display`. Claimed: the text is a function of mantissa and scale alone,
/// and `Decimal::from_str_exact` reads it back as the same mantissa and
/// scale (the text holds the sign, every digit of the mantissa and exactly
/// `scale` digits after the point).
#[verifier::external_body]
fn decimal_to_string(m: &Money) -> (r: String)
    requires
        m.wf(),
    ensures
        r@ == decimal_text(m.mantissa as int, m.scale as nat),
        exact_decimal(r@) == Some((m.mantissa as int, m.scale as nat)),
{
    rust_decimal::Decimal::from_i128_with_scale(m.mantissa, m.scale).to_string()
}

/// Calls `rust_decimal::Decimal::checked_mul` on two decimals built with
/// `Decimal::from_i128_with_scale`, and takes the product apart with
/// `Decimal::mantissa` and `Decimal::scale`. Claimed: the outcome is a
/// function of the two operands alone, `None` being the crate's report of an
/// overflow, and a product is within the crate's bounds.
#[verifier::external_body]
fn decimal_checked_mul(a: &Money, b: &Money) -> (r: Option<Money>)
    requires
        a.wf(),
        b.wf(),
    ensures
        r is Some <==> decimal_product(
            a.mantissa as int,
            a.scale as nat,
            b.mantissa as int,
            b.scale as nat,
        ) is Some,
        r matches Some(m) ==> m.wf() && decimal_product(
            a.mantissa as int,
            a.scale as nat,
            b.mantissa as int,
            b.scale as nat,
        ) == Some((m.mantissa as int, m.scale as nat)),
{
    let x = rust_decimal::Decimal::from_i128_with_scale(a.mantissa, a.scale);
    let y = rust_decimal::Decimal::from_i128_with_scale(b.mantissa, b.scale);
    match x.checked_mul(y) {
        Some(d) => Some(Money { mantissa: d.mantissa(), scale: d.scale() }),
        None => None,
    }
}

} // verus!
