//! Exact decimal numbers.
//!
//! A number on the wire is a decimal numeral. It is kept here as it was
//! written, a count of digits scaled by a power of ten, so that ordering
//! and unit conversion are exact integer arithmetic.
use vstd::prelude::*;

verus! {

/// Ten to the power `n`.
pub open spec fn pow10(n: nat) -> nat
    decreases n,
{
    if n == 0 {
        1
    } else {
        10 * pow10((n - 1) as nat)
    }
}

pub proof fn lemma_pow10_positive(n: nat)
    ensures
        pow10(n) >= 1,
    decreases n,
{
    if n > 0 {
        lemma_pow10_positive((n - 1) as nat);
    }
}

pub proof fn lemma_pow10_adds(a: nat, b: nat)
    ensures
        pow10(a + b) == pow10(a) * pow10(b),
    decreases a,
{
    if a > 0 {
        lemma_pow10_adds((a - 1) as nat, b);
        assert(pow10(a + b) == 10 * pow10((a - 1 + b) as nat));
        assert(10 * (pow10((a - 1) as nat) * pow10(b)) == (10 * pow10((a - 1) as nat)) * pow10(b))
            by (nonlinear_arith);
    } else {
        assert(1 * pow10(b) == pow10(b));
    }
}

pub proof fn lemma_pow10_monotonic(a: nat, b: nat)
    requires
        a <= b,
    ensures
        pow10(a) <= pow10(b),
    decreases b,
{
    if a < b {
        lemma_pow10_monotonic(a, (b - 1) as nat);
    }
}

/// The value of the largest power of ten that the arithmetic below computes.
pub proof fn lemma_pow10_38()
    ensures
        pow10(38) == LIMIT,
        pow10(39) == 10 * LIMIT,
        pow10(19) == 10_000_000_000_000_000_000,
        pow10(20) == 100_000_000_000_000_000_000,
        pow10(3) == 1000,
{
    reveal_with_fuel(pow10, 40);
}

/// The sign of an integer.
#[derive(Clone, Copy, Debug, PartialEq, Eq, Structural)]
pub enum Sign {
    Negative,
    Zero,
    Positive,
}

pub open spec fn sign_of(x: int) -> Sign {
    if x < 0 {
        Sign::Negative
    } else if x == 0 {
        Sign::Zero
    } else {
        Sign::Positive
    }
}

impl Sign {
    /// The sign of the negated quantity.
    pub open spec fn flipped(self) -> Sign {
        match self {
            Sign::Negative => Sign::Positive,
            Sign::Zero => Sign::Zero,
            Sign::Positive => Sign::Negative,
        }
    }
}

/// Partial sums are kept below this magnitude; a partial sum that would
/// exceed it already decides the sign of the whole.
pub const LIMIT: i128 = 100_000_000_000_000_000_000_000_000_000_000_000_000;

/// The largest magnitude of one term's amount.
pub const BOUND: i128 = 1_000_000_000_000_000_000_000;

/// One term of a sum: `amount * 10^shift`.
#[derive(Clone, Copy, Debug)]
pub struct Term {
    pub amount: i128,
    pub shift: u64,
}

impl Term {
    pub open spec fn value(self) -> int {
        self.amount * pow10(self.shift as nat)
    }

    pub open spec fn small(self) -> bool {
        -BOUND <= self.amount <= BOUND
    }
}

fn sign_i128(x: i128) -> (s: Sign)
    ensures
        s == sign_of(x as int),
{
    if x < 0 {
        Sign::Negative
    } else if x == 0 {
        Sign::Zero
    } else {
        Sign::Positive
    }
}

fn power_of_ten(n: u64) -> (p: i128)
    requires
        n <= 38,
    ensures
        p == pow10(n as nat),
        1 <= p <= LIMIT,
{
    let mut p: i128 = 1;
    let mut i: u64 = 0;
    while i < n
        invariant
            i <= n <= 38,
            p == pow10(i as nat),
            1 <= p <= LIMIT,
        decreases n - i,
    {
        proof {
            lemma_pow10_monotonic((i + 1) as nat, 38);
            lemma_pow10_38();
        }
        p = p * 10;
        i = i + 1;
    }
    p
}

/// Scales the partial sum `acc` by `10^gap` and adds `term`, unless the
/// scaled partial sum is already beyond `LIMIT`.
fn absorb(acc: i128, gap: u64, term: i128) -> (r: Option<i128>)
    requires
        -(LIMIT + BOUND) <= acc <= LIMIT + BOUND,
        -BOUND <= term <= BOUND,
    ensures
        match r {
            Some(n) => n == acc * pow10(gap as nat) + term && -(LIMIT + BOUND) <= n <= LIMIT
                + BOUND,
            None => acc != 0 && (acc > 0 ==> acc * pow10(gap as nat) > LIMIT) && (acc < 0 ==> acc
                * pow10(gap as nat) < -LIMIT),
        },
{
    if acc == 0 {
        assert(0 * pow10(gap as nat) == 0);
        return Some(term);
    }
    if gap > 38 {
        proof {
            lemma_pow10_monotonic(39, gap as nat);
            lemma_pow10_38();
            let p = pow10(gap as nat) as int;
            assert(acc > 0 ==> acc * p > LIMIT) by (nonlinear_arith)
                requires
                    p >= 10 * LIMIT,
            ;
            assert(acc < 0 ==> acc * p < -LIMIT) by (nonlinear_arith)
                requires
                    p >= 10 * LIMIT,
            ;
        }
        return None;
    }
    let p = power_of_ten(gap);
    let room = LIMIT / p;
    proof {
        assert(room * p <= LIMIT < (room + 1) * p) by (nonlinear_arith)
            requires
                room == LIMIT / p,
                p >= 1,
        ;
    }
    if acc > room {
        assert(acc * p > LIMIT) by (nonlinear_arith)
            requires
                acc >= room + 1,
                p >= 1,
                LIMIT < (room + 1) * p,
        ;
        return None;
    }
    if acc < -room {
        assert(acc * p < -LIMIT) by (nonlinear_arith)
            requires
                acc <= -(room + 1),
                p >= 1,
                LIMIT < (room + 1) * p,
        ;
        return None;
    }
    assert(-LIMIT <= acc * p <= LIMIT) by (nonlinear_arith)
        requires
            -room <= acc <= room,
            p >= 1,
            room * p <= LIMIT,
    ;
    Some(acc * p + term)
}

/// Orders three terms by falling shift.
fn sort_terms(a: Term, b: Term, c: Term) -> (r: (Term, Term, Term))
    ensures
        r.0.shift >= r.1.shift >= r.2.shift,
        r.0.value() + r.1.value() + r.2.value() == a.value() + b.value() + c.value(),
        a.small() && b.small() && c.small() ==> r.0.small() && r.1.small() && r.2.small(),
{
    let (x, y) = if a.shift >= b.shift {
        (a, b)
    } else {
        (b, a)
    };
    if c.shift >= x.shift {
        (c, x, y)
    } else if c.shift >= y.shift {
        (x, c, y)
    } else {
        (x, y, c)
    }
}

proof fn lemma_nested(ha: int, ma: int, la: int, g1: nat, g2: nat, s: nat)
    ensures
        ha * pow10(g1 + g2 + s) + ma * pow10(g2 + s) + la * pow10(s) == ((ha * pow10(g1) + ma)
            * pow10(g2) + la) * pow10(s),
{
    lemma_pow10_adds(g1, g2 + s);
    lemma_pow10_adds(g2, s);
    let p1 = pow10(g1) as int;
    let p2 = pow10(g2) as int;
    let q = pow10(s) as int;
    assert(ha * (p1 * (p2 * q)) + ma * (p2 * q) + la * q == ((ha * p1 + ma) * p2 + la) * q)
        by (nonlinear_arith);
}

proof fn lemma_sign_scaled(x: int, q: int)
    requires
        q >= 1,
    ensures
        sign_of(x * q) == sign_of(x),
{
    assert(x > 0 ==> x * q > 0) by (nonlinear_arith)
        requires
            q >= 1,
    ;
    assert(x < 0 ==> x * q < 0) by (nonlinear_arith)
        requires
            q >= 1,
    ;
    assert(x == 0 ==> x * q == 0) by (nonlinear_arith);
}

/// Scaling by a factor of at least one does not bring a quantity closer to zero.
proof fn lemma_scaled_beyond(x: int, q: int, floor: int)
    requires
        q >= 1,
        floor >= 0,
    ensures
        x > floor ==> x * q > floor,
        x < -floor ==> x * q < -floor,
{
    assert(x > floor ==> x * q > floor) by (nonlinear_arith)
        requires
            q >= 1,
            floor >= 0,
    ;
    assert(x < -floor ==> x * q < -floor) by (nonlinear_arith)
        requires
            q >= 1,
            floor >= 0,
    ;
}

/// The sign of the sum of three terms, whatever their shifts.
pub fn sign_of_sum(a: Term, b: Term, c: Term) -> (s: Sign)
    requires
        a.small(),
        b.small(),
        c.small(),
    ensures
        s == sign_of(a.value() + b.value() + c.value()),
{
    let (hi, mid, lo) = sort_terms(a, b, c);
    let g1 = hi.shift - mid.shift;
    let g2 = mid.shift - lo.shift;
    proof {
        lemma_nested(
            hi.amount as int,
            mid.amount as int,
            lo.amount as int,
            g1 as nat,
            g2 as nat,
            lo.shift as nat,
        );
        lemma_pow10_positive(g2 as nat);
        lemma_pow10_positive(lo.shift as nat);
    }
    let ghost p1 = pow10(g1 as nat) as int;
    let ghost p2 = pow10(g2 as nat) as int;
    let ghost q = pow10(lo.shift as nat) as int;
    match absorb(hi.amount, g1, mid.amount) {
        None => {
            proof {
                let x = hi.amount * p1 + mid.amount;
                lemma_scaled_beyond(x, p2, 2 * BOUND as int);
                lemma_sign_scaled(x * p2 + lo.amount, q);
            }
            sign_i128(hi.amount)
        },
        Some(n1) => match absorb(n1, g2, lo.amount) {
            None => {
                proof {
                    lemma_sign_scaled(n1 * p2 + lo.amount, q);
                }
                sign_i128(n1)
            },
            Some(n2) => {
                proof {
                    lemma_sign_scaled(n2 as int, q);
                }
                sign_i128(n2)
            },
        },
    }
}

/// A decimal number: `digits * 10^exponent`, negated when `negative` is set.
#[derive(Clone, Copy, Debug)]
pub struct Number {
    pub negative: bool,
    pub digits: u64,
    pub exponent: i32,
}

/// The shift of a number whose exponent is zero: values are counted in
/// units of ten to the power of the least exponent.
pub open spec fn unit_shift() -> nat {
    0x8000_0000
}

pub open spec fn clamp_i64(x: int) -> i64 {
    if x < i64::MIN {
        i64::MIN
    } else if x > i64::MAX {
        i64::MAX
    } else {
        x as i64
    }
}

/// The distance of `value` from zero.
pub open spec fn magnitude_of(value: i64) -> u64 {
    if value >= 0 {
        value as u64
    } else {
        (-(value as int)) as u64
    }
}

fn magnitude(value: i64) -> (m: u64)
    ensures
        m == magnitude_of(value),
{
    if value >= 0 {
        value as u64
    } else if value == i64::MIN {
        0x8000_0000_0000_0000
    } else {
        (-value) as u64
    }
}

/// The number of seconds that a count of milliseconds is written as
/// comes to that count again.
pub proof fn lemma_millis_come_back(millis: i64)
    ensures
        (Number { negative: millis < 0, digits: magnitude_of(millis), exponent: -3i32 }).thousandths()
            == millis,
{
    assert(magnitude_of(millis) as int * pow10(0) == magnitude_of(millis) as int)
        by (nonlinear_arith)
        requires
            pow10(0) == 1,
    ;
}

impl Number {
    pub open spec fn signed(self) -> int {
        if self.negative {
            -(self.digits as int)
        } else {
            self.digits as int
        }
    }

    pub open spec fn shift(self) -> nat {
        (self.exponent - i32::MIN) as nat
    }

    /// The value, counted in units of ten to the power of the least
    /// exponent: an integer, so that two numbers compare as their units do.
    pub open spec fn units(self) -> int {
        self.signed() * pow10(self.shift())
    }

    /// The value, if it is a whole number.
    pub open spec fn whole(self) -> Option<int> {
        if self.exponent >= 0 {
            Some(self.signed() * pow10(self.exponent as nat))
        } else if self.digits as int % pow10((-self.exponent) as nat) as int == 0 {
            Some(
                if self.negative {
                    -(self.digits as int / pow10((-self.exponent) as nat) as int)
                } else {
                    self.digits as int / pow10((-self.exponent) as nat) as int
                },
            )
        } else {
            None
        }
    }

    /// The value as an unsigned machine integer, if it is one.
    pub open spec fn as_u64(self) -> Option<u64> {
        match self.whole() {
            Some(v) => if 0 <= v <= u64::MAX {
                Some(v as u64)
            } else {
                None
            },
            None => None,
        }
    }

    /// A thousand times the value, with what is left of a unit cut off.
    pub open spec fn thousandths(self) -> int {
        let k = self.exponent + 3;
        let magnitude = if k >= 0 {
            self.digits as int * pow10(k as nat)
        } else {
            self.digits as int / pow10((-k) as nat) as int
        };
        if self.negative {
            -magnitude
        } else {
            magnitude
        }
    }

    pub fn new(negative: bool, digits: u64, exponent: i32) -> (n: Number)
        ensures
            n == (Number { negative, digits, exponent }),
    {
        Number { negative, digits, exponent }
    }

    pub fn zero() -> (n: Number)
        ensures
            n == (Number { negative: false, digits: 0, exponent: 0 }),
            n.units() == 0,
    {
        assert(0 * pow10((0 - i32::MIN) as nat) == 0);
        Number { negative: false, digits: 0, exponent: 0 }
    }

    pub fn one() -> (n: Number)
        ensures
            n == (Number { negative: false, digits: 1, exponent: 0 }),
            n.units() == pow10(unit_shift()),
    {
        assert(1 * pow10(unit_shift()) == pow10(unit_shift()));
        Number { negative: false, digits: 1, exponent: 0 }
    }

    pub fn from_u64(value: u64) -> (n: Number)
        ensures
            n == (Number { negative: false, digits: value, exponent: 0 }),
            n.as_u64() == Some(value),
    {
        assert(value as int * pow10(0) == value as int) by (nonlinear_arith)
            requires
                pow10(0) == 1,
        ;
        Number { negative: false, digits: value, exponent: 0 }
    }

    pub fn from_i64(value: i64) -> (n: Number)
        ensures
            n == (Number { negative: value < 0, digits: magnitude_of(value), exponent: 0 }),
            n.signed() == value,
    {
        Number { negative: value < 0, digits: magnitude(value), exponent: 0 }
    }

    /// The number of seconds that `millis` milliseconds are.
    pub fn from_millis(millis: i64) -> (n: Number)
        ensures
            n == (Number { negative: millis < 0, digits: magnitude_of(millis), exponent: -3i32 }),
            n.thousandths() == millis,
    {
        assert(magnitude_of(millis) as int * pow10(0) == magnitude_of(millis) as int)
            by (nonlinear_arith)
            requires
                pow10(0) == 1,
        ;
        Number { negative: millis < 0, digits: magnitude(millis), exponent: -3 }
    }

    fn amount(&self) -> (a: i128)
        ensures
            a == self.signed(),
    {
        if self.negative {
            -(self.digits as i128)
        } else {
            self.digits as i128
        }
    }

    /// The number, `factor` times, as one term of a sum.
    pub fn term(&self, factor: i8) -> (t: Term)
        requires
            -9 <= factor <= 9,
        ensures
            t.value() == factor * self.units(),
            t.small(),
    {
        let a = self.amount();
        assert(-9 * 0xffff_ffff_ffff_ffff <= factor * a <= 9 * 0xffff_ffff_ffff_ffff)
            by (nonlinear_arith)
            requires
                -9 <= factor <= 9,
                -0xffff_ffff_ffff_ffff <= a <= 0xffff_ffff_ffff_ffff,
        ;
        let amount = (factor as i128) * a;
        let shift = (self.exponent as i64 - i32::MIN as i64) as u64;
        proof {
            let p = pow10(self.shift()) as int;
            assert((factor * a) * p == factor * (a * p)) by (nonlinear_arith);
        }
        Term { amount, shift }
    }

    /// The sign of `self - other`.
    pub fn sign_of_difference(&self, other: &Number) -> (s: Sign)
        ensures
            s == sign_of(self.units() - other.units()),
    {
        let zero = Term { amount: 0, shift: 0 };
        assert(zero.value() == 0) by {
            assert(0 * pow10(0) == 0);
        }
        sign_of_sum(self.term(1), other.term(-1), zero)
    }

    /// Whether the two numbers have the same value.
    pub fn same(&self, other: &Number) -> (r: bool)
        ensures
            r == (self.units() == other.units()),
    {
        match self.sign_of_difference(other) {
            Sign::Zero => true,
            _ => false,
        }
    }

    /// The value as an unsigned machine integer, if it is one.
    pub fn to_u64(&self) -> (r: Option<u64>)
        ensures
            r == self.as_u64(),
    {
        if self.digits == 0 {
            proof {
                if self.exponent >= 0 {
                    assert(0 * pow10(self.exponent as nat) == 0);
                } else {
                    lemma_pow10_positive((-self.exponent) as nat);
                }
            }
            return Some(0);
        }
        if self.exponent >= 0 {
            proof {
                lemma_pow10_positive(self.exponent as nat);
                let p = pow10(self.exponent as nat) as int;
                let d = self.digits as int;
                assert(d * p >= 1) by (nonlinear_arith)
                    requires
                        d >= 1,
                        p >= 1,
                ;
                assert((-d) * p == -(d * p)) by (nonlinear_arith);
            }
            if self.negative {
                return None;
            }
            if self.exponent > 19 {
                proof {
                    lemma_pow10_monotonic(20, self.exponent as nat);
                    lemma_pow10_38();
                    let p = pow10(self.exponent as nat) as int;
                    let d = self.digits as int;
                    assert(d * p >= p) by (nonlinear_arith)
                        requires
                            d >= 1,
                            p >= 1,
                    ;
                }
                return None;
            }
            let p = power_of_ten(self.exponent as u64) as u128;
            proof {
                lemma_pow10_monotonic(self.exponent as nat, 19);
                lemma_pow10_38();
                let d = self.digits as int;
                assert(d * p <= 0xffff_ffff_ffff_ffff * 10_000_000_000_000_000_000)
                    by (nonlinear_arith)
                    requires
                        0 <= d <= 0xffff_ffff_ffff_ffff,
                        0 <= p <= 10_000_000_000_000_000_000,
                ;
            }
            let v = (self.digits as u128) * p;
            if v <= u64::MAX as u128 {
                Some(v as u64)
            } else {
                None
            }
        } else {
            let k = -(self.exponent as i64);
            if k > 19 {
                proof {
                    lemma_pow10_monotonic(20, k as nat);
                    lemma_pow10_38();
                    let p = pow10(k as nat) as int;
                    let d = self.digits as int;
                    assert(d % p == d) by (nonlinear_arith)
                        requires
                            0 < d < p,
                    ;
                }
                return None;
            }
            let p = power_of_ten(k as u64) as u64;
            proof {
                lemma_pow10_monotonic(k as nat, 19);
                lemma_pow10_38();
            }
            if self.digits % p != 0 {
                return None;
            }
            let q = self.digits / p;
            proof {
                let d = self.digits as int;
                assert(q >= 1) by (nonlinear_arith)
                    requires
                        d >= 1,
                        p >= 1,
                        d % (p as int) == 0,
                        q == d / (p as int),
                ;
            }
            if self.negative {
                return None;
            }
            Some(q)
        }
    }

    /// A thousand times the value as a machine integer: what is left of a
    /// unit is cut off, and a value out of range becomes the nearest bound.
    pub fn to_thousandths(&self) -> (r: i64)
        ensures
            r == clamp_i64(self.thousandths()),
    {
        let k = self.exponent as i64 + 3;
        if self.digits == 0 {
            proof {
                if k >= 0 {
                    assert(0 * pow10(k as nat) == 0);
                } else {
                    lemma_pow10_positive((-k) as nat);
                }
            }
            return 0;
        }
        if k >= 0 {
            if k > 19 {
                proof {
                    lemma_pow10_monotonic(20, k as nat);
                    lemma_pow10_38();
                    let p = pow10(k as nat) as int;
                    let d = self.digits as int;
                    assert(d * p >= p) by (nonlinear_arith)
                        requires
                            d >= 1,
                            p >= 1,
                    ;
                }
                return if self.negative {
                    i64::MIN
                } else {
                    i64::MAX
                };
            }
            let p = power_of_ten(k as u64) as u128;
            proof {
                lemma_pow10_monotonic(k as nat, 19);
                lemma_pow10_38();
                let d = self.digits as int;
                assert(d * p <= 0xffff_ffff_ffff_ffff * 10_000_000_000_000_000_000)
                    by (nonlinear_arith)
                    requires
                        0 <= d <= 0xffff_ffff_ffff_ffff,
                        0 <= p <= 10_000_000_000_000_000_000,
                ;
            }
            let v = (self.digits as u128) * p;
            if self.negative {
                if v >= 0x8000_0000_0000_0000 {
                    i64::MIN
                } else {
                    -(v as i64)
                }
            } else {
                if v > i64::MAX as u128 {
                    i64::MAX
                } else {
                    v as i64
                }
            }
        } else {
            let j = -k;
            if j > 19 {
                proof {
                    lemma_pow10_monotonic(20, j as nat);
                    lemma_pow10_38();
                    let p = pow10(j as nat) as int;
                    let d = self.digits as int;
                    assert(d / p == 0) by (nonlinear_arith)
                        requires
                            0 <= d < p,
                    ;
                }
                return 0;
            }
            let p = power_of_ten(j as u64) as u64;
            proof {
                lemma_pow10_monotonic(1, j as nat);
                lemma_pow10_monotonic(j as nat, 19);
                lemma_pow10_38();
                assert(pow10(1) == 10) by {
                    reveal_with_fuel(pow10, 2);
                }
            }
            let q = self.digits / p;
            proof {
                let d = self.digits as int;
                assert(q <= d / 10) by (nonlinear_arith)
                    requires
                        d >= 0,
                        p >= 10,
                        q == d / (p as int),
                ;
            }
            if self.negative {
                -(q as i64)
            } else {
                q as i64
            }
        }
    }
}

} // verus!
