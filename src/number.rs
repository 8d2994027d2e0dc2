//! Exact rational numbers for constant folding.
use vstd::prelude::*;

verus! {

/// Greatest common divisor, by Euclid's algorithm.
pub open spec fn gcd(a: nat, b: nat) -> nat
    decreases b,
{
    if b == 0 {
        a
    } else {
        gcd(b, a % b)
    }
}

/// The absolute value of an integer.
pub open spec fn abs_int(x: int) -> int {
    if x < 0 {
        -x
    } else {
        x
    }
}

/// The fraction `n / d` (with `d > 0`) in lowest terms, as a pair
/// (numerator, denominator); the sign stays on the numerator.
pub open spec fn normalize(n: int, d: int) -> (int, int) {
    let g = gcd(abs_int(n) as nat, d as nat) as int;
    if n >= 0 {
        (n / g, d / g)
    } else {
        (-((-n) / g), d / g)
    }
}

/// Whether a pair is a fraction that a `Rational` can hold.
pub open spec fn in_range(r: (int, int)) -> bool {
    &&& abs_int(r.0) <= i64::MAX
    &&& 1 <= r.1 <= i64::MAX
}

pub open spec fn rat_add(a: (int, int), b: (int, int)) -> (int, int) {
    normalize(a.0 * b.1 + b.0 * a.1, a.1 * b.1)
}

pub open spec fn rat_sub(a: (int, int), b: (int, int)) -> (int, int) {
    normalize(a.0 * b.1 - b.0 * a.1, a.1 * b.1)
}

pub open spec fn rat_mul(a: (int, int), b: (int, int)) -> (int, int) {
    normalize(a.0 * b.0, a.1 * b.1)
}

/// Quotient `a / b`; meaningful when `b` is not zero.
pub open spec fn rat_div(a: (int, int), b: (int, int)) -> (int, int) {
    if b.0 > 0 {
        normalize(a.0 * b.1, a.1 * b.0)
    } else {
        normalize(-(a.0 * b.1), -(a.1 * b.0))
    }
}

/// Whether the fraction is a whole number.
pub open spec fn is_int(r: (int, int)) -> bool {
    abs_int(r.0) % r.1 == 0
}

/// The value of a fraction that is a whole number.
pub open spec fn int_of(r: (int, int)) -> int {
    if r.0 >= 0 {
        r.0 / r.1
    } else {
        -((-r.0) / r.1)
    }
}

pub open spec fn rat_lt(a: (int, int), b: (int, int)) -> bool {
    a.0 * b.1 < b.0 * a.1
}

/// Integer division rounding toward zero.
pub open spec fn trunc_div(a: int, b: int) -> int {
    let q = abs_int(a) / abs_int(b);
    if (a < 0) == (b < 0) {
        q
    } else {
        -q
    }
}

/// Remainder of `trunc_div`: the sign is that of the dividend.
pub open spec fn trunc_rem(a: int, b: int) -> int {
    let m = abs_int(a) % abs_int(b);
    if a < 0 {
        -m
    } else {
        m
    }
}

/// Largest whole number not above the fraction.
pub open spec fn rat_floor(r: (int, int)) -> (int, int) {
    if r.0 >= 0 {
        (r.0 / r.1, 1)
    } else {
        (-((-r.0 + r.1 - 1) / r.1), 1)
    }
}

/// Smallest whole number not below the fraction.
pub open spec fn rat_ceil(r: (int, int)) -> (int, int) {
    if r.0 >= 0 {
        ((r.0 + r.1 - 1) / r.1, 1)
    } else {
        (-((-r.0) / r.1), 1)
    }
}

/// Nearest whole number, halves rounded away from zero.
pub open spec fn rat_round(r: (int, int)) -> (int, int) {
    if r.0 >= 0 {
        ((2 * r.0 + r.1) / (2 * r.1), 1)
    } else {
        (-((2 * (-r.0) + r.1) / (2 * r.1)), 1)
    }
}

pub open spec fn rat_abs(r: (int, int)) -> (int, int) {
    (abs_int(r.0), r.1)
}

pub proof fn lemma_gcd_pos(a: nat, b: nat)
    requires
        a > 0 || b > 0,
    ensures
        gcd(a, b) > 0,
    decreases b,
{
    if b != 0 {
        lemma_gcd_pos(b, a % b);
    }
}

pub proof fn lemma_gcd_le(a: nat, b: nat)
    requires
        b > 0,
    ensures
        gcd(a, b) <= b,
    decreases b,
{
    assert(gcd(a, b) == gcd(b, a % b));
    if a % b != 0 {
        lemma_gcd_le(b, a % b);
    } else {
        assert(gcd(b, 0) == b);
    }
}

proof fn lemma_prod_bound(x: int, y: int)
    requires
        -(i64::MAX as int) <= x <= i64::MAX as int,
        -(i64::MAX as int) <= y <= i64::MAX as int,
    ensures
        -(i64::MAX as int) * (i64::MAX as int) <= x * y <= (i64::MAX as int) * (i64::MAX as int),
{
    let m = i64::MAX as int;
    assert(-m * m <= x * y <= m * m) by (nonlinear_arith)
        requires -m <= x <= m, -m <= y <= m, m > 0;
}

/// Reducing a fraction never makes its parts larger.
pub proof fn lemma_normalize_bounds(n: int, d: int)
    requires
        d > 0,
    ensures
        abs_int(normalize(n, d).0) <= abs_int(n),
        1 <= normalize(n, d).1 <= d,
{
    let g = gcd(abs_int(n) as nat, d as nat) as int;
    lemma_gcd_pos(abs_int(n) as nat, d as nat);
    lemma_gcd_le(abs_int(n) as nat, d as nat);
    let a = abs_int(n);
    assert(a / g <= a) by (nonlinear_arith)
        requires a >= 0, g >= 1;
    assert(1 <= d / g <= d) by (nonlinear_arith)
        requires d >= g, g >= 1;
}

fn gcd_u128(a: u128, b: u128) -> (g: u128)
    ensures
        g == gcd(a as nat, b as nat),
{
    let mut x: u128 = a;
    let mut y: u128 = b;
    while y != 0
        invariant
            gcd(x as nat, y as nat) == gcd(a as nat, b as nat),
        decreases y,
    {
        let t = x % y;
        x = y;
        y = t;
    }
    x
}

/// An exact rational number, kept in lowest terms with a positive
/// denominator; numerator and denominator both fit in `i64` and the
/// numerator is never `i64::MIN`.
#[derive(Clone, Copy, Debug, PartialEq, Eq)]
pub struct Rational {
    num: i64,
    den: i64,
}

impl View for Rational {
    type V = (int, int);

    closed spec fn view(&self) -> (int, int) {
        (self.num as int, self.den as int)
    }
}

impl Rational {
    proof fn lemma_products(self, o: Rational)
        requires
            in_range(self@),
            in_range(o@),
        ensures
            -(i64::MAX as int) * (i64::MAX as int) <= self@.0 * o@.1 <= (i64::MAX as int) * (i64::MAX as int),
            -(i64::MAX as int) * (i64::MAX as int) <= o@.0 * self@.1 <= (i64::MAX as int) * (i64::MAX as int),
            -(i64::MAX as int) * (i64::MAX as int) <= self@.0 * o@.0 <= (i64::MAX as int) * (i64::MAX as int),
            1 <= self@.1 * o@.1 <= (i64::MAX as int) * (i64::MAX as int),
    {
        lemma_prod_bound(self@.0, o@.1);
        lemma_prod_bound(o@.0, self@.1);
        lemma_prod_bound(self@.0, o@.0);
        lemma_prod_bound(self@.1, o@.1);
        assert(1 <= self@.1 * o@.1) by (nonlinear_arith)
            requires self@.1 >= 1, o@.1 >= 1;
    }

    #[verifier::type_invariant]
    spec fn inv(self) -> bool {
        in_range(self@)
    }

    /// Builds `n / d` in lowest terms from 128-bit parts, or `None` when the
    /// reduced fraction does not fit.
    fn from_parts(n: i128, d: i128) -> (r: Option<Rational>)
        requires
            n > i128::MIN,
            d > 0,
        ensures
            r matches Some(x) ==> x@ == normalize(n as int, d as int),
            r is None <==> !in_range(normalize(n as int, d as int)),
    {
        let an: u128 = if n >= 0 { n as u128 } else { (-n) as u128 };
        proof {
            lemma_gcd_pos(an as nat, d as nat);
            lemma_gcd_le(an as nat, d as nat);
        }
        let g = gcd_u128(an, d as u128);
        let q = an / g;
        let dq = (d as u128) / g;
        assert(q as int == abs_int(n as int) / (g as int));
        assert(dq >= 1) by (nonlinear_arith)
            requires dq == (d as u128) / g, d as int >= g as int, g > 0;
        if q > (i64::MAX as u128) || dq > (i64::MAX as u128) {
            None
        } else {
            let num: i64 = if n >= 0 { q as i64 } else { -(q as i64) };
            let r = Rational { num, den: dq as i64 };
            Some(r)
        }
    }

    /// `num / den` in lowest terms; `None` when `den` is zero or the reduced
    /// fraction does not fit.
    pub fn new(num: i64, den: i64) -> (r: Option<Rational>)
        ensures
            den == 0 ==> r is None,
            den > 0 ==> (r matches Some(x) ==> x@ == normalize(num as int, den as int)) && (r is None
                <==> !in_range(normalize(num as int, den as int))),
            den < 0 ==> (r matches Some(x) ==> x@ == normalize(-num, -den)) && (r is None
                <==> !in_range(normalize(-num, -den))),
    {
        if den == 0 {
            None
        } else if den > 0 {
            Rational::from_parts(num as i128, den as i128)
        } else {
            Rational::from_parts(-(num as i128), -(den as i128))
        }
    }

    /// The whole number `n`.
    pub fn integer(n: i64) -> (r: Rational)
        requires
            n > i64::MIN,
        ensures
            r@ == (n as int, 1int),
    {
        Rational { num: n, den: 1 }
    }

    /// The numerator, which carries the sign.
    pub fn numer(&self) -> (r: i64)
        ensures
            r == self@.0,
    {
        self.num
    }

    /// The denominator, always positive.
    pub fn denom(&self) -> (r: i64)
        ensures
            r == self@.1,
            r >= 1,
    {
        proof {
            use_type_invariant(self);
        }
        self.den
    }

    pub fn add(&self, o: &Rational) -> (r: Option<Rational>)
        ensures
            r matches Some(x) ==> x@ == rat_add(self@, o@),
            r is None <==> !in_range(rat_add(self@, o@)),
    {
        proof {
            use_type_invariant(self);
            use_type_invariant(o);
            self.lemma_products(*o);
        }
        let a = (self.num as i128) * (o.den as i128);
        let b = (o.num as i128) * (self.den as i128);
        let d = (self.den as i128) * (o.den as i128);
        assert(d > 0) by (nonlinear_arith)
            requires d == (self.den as int) * (o.den as int), self.den >= 1, o.den >= 1;
        Rational::from_parts(a + b, d)
    }

    pub fn sub(&self, o: &Rational) -> (r: Option<Rational>)
        ensures
            r matches Some(x) ==> x@ == rat_sub(self@, o@),
            r is None <==> !in_range(rat_sub(self@, o@)),
    {
        proof {
            use_type_invariant(self);
            use_type_invariant(o);
            self.lemma_products(*o);
        }
        let a = (self.num as i128) * (o.den as i128);
        let b = (o.num as i128) * (self.den as i128);
        let d = (self.den as i128) * (o.den as i128);
        assert(d > 0) by (nonlinear_arith)
            requires d == (self.den as int) * (o.den as int), self.den >= 1, o.den >= 1;
        Rational::from_parts(a - b, d)
    }

    pub fn mul(&self, o: &Rational) -> (r: Option<Rational>)
        ensures
            r matches Some(x) ==> x@ == rat_mul(self@, o@),
            r is None <==> !in_range(rat_mul(self@, o@)),
    {
        proof {
            use_type_invariant(self);
            use_type_invariant(o);
            self.lemma_products(*o);
        }
        let a = (self.num as i128) * (o.num as i128);
        let d = (self.den as i128) * (o.den as i128);
        assert(d > 0) by (nonlinear_arith)
            requires d == (self.den as int) * (o.den as int), self.den >= 1, o.den >= 1;
        Rational::from_parts(a, d)
    }

    pub fn div(&self, o: &Rational) -> (r: Option<Rational>)
        requires
            o@.0 != 0,
        ensures
            r matches Some(x) ==> x@ == rat_div(self@, o@),
            r is None <==> !in_range(rat_div(self@, o@)),
    {
        proof {
            use_type_invariant(self);
            use_type_invariant(o);
            self.lemma_products(*o);
        }
        let a = (self.num as i128) * (o.den as i128);
        let d = (self.den as i128) * (o.num as i128);
        if o.num > 0 {
            assert(d > 0) by (nonlinear_arith)
                requires d == (self.den as int) * (o.num as int), self.den >= 1, o.num >= 1;
            Rational::from_parts(a, d)
        } else {
            assert(d < 0) by (nonlinear_arith)
                requires d == (self.den as int) * (o.num as int), self.den >= 1, o.num < 0;
            Rational::from_parts(-a, -d)
        }
    }

    pub fn is_zero(&self) -> (r: bool)
        ensures
            r == (self@.0 == 0),
    {
        self.num == 0
    }

    pub fn is_integer(&self) -> (r: bool)
        ensures
            r == is_int(self@),
    {
        proof {
            use_type_invariant(self);
        }
        let a: u64 = if self.num >= 0 { self.num as u64 } else { (-self.num) as u64 };
        a % (self.den as u64) == 0
    }

    /// Strict numeric order.
    pub fn lt(&self, o: &Rational) -> (r: bool)
        ensures
            r == rat_lt(self@, o@),
    {
        proof {
            use_type_invariant(self);
            use_type_invariant(o);
            self.lemma_products(*o);
        }
        (self.num as i128) * (o.den as i128) < (o.num as i128) * (self.den as i128)
    }

    /// Magnitude of the numerator, and its sign.
    fn magnitude(&self) -> (r: (u64, bool))
        ensures
            r.0 as int == abs_int(self@.0),
            r.1 == (self@.0 < 0),
            r.0 <= i64::MAX,
            1 <= self@.1 <= i64::MAX,
    {
        proof {
            use_type_invariant(self);
        }
        if self.num >= 0 {
            (self.num as u64, false)
        } else {
            ((-self.num) as u64, true)
        }
    }

    fn signed(m: u64, neg: bool) -> (r: Rational)
        requires
            m <= i64::MAX,
        ensures
            r@ == (if neg { -(m as int) } else { m as int }, 1int),
    {
        if neg {
            Rational { num: -(m as i64), den: 1 }
        } else {
            Rational { num: m as i64, den: 1 }
        }
    }

    /// The value of a whole number.
    pub fn to_int(&self) -> (r: i64)
        requires
            is_int(self@),
        ensures
            r == int_of(self@),
            r > i64::MIN,
            self@.0 >= 0 ==> r >= 0,
    {
        let (m, neg) = self.magnitude();
        let q = m / (self.den as u64);
        if neg {
            -(q as i64)
        } else {
            q as i64
        }
    }

    /// Quotient of two whole numbers, rounded toward zero.
    pub fn trunc_div(&self, o: &Rational) -> (r: Rational)
        requires
            is_int(self@),
            is_int(o@),
            o@.0 != 0,
        ensures
            r@ == (trunc_div(int_of(self@), int_of(o@)), 1int),
    {
        proof {
            use_type_invariant(o);
        }
        let a = self.to_int();
        let b = o.to_int();
        let ma: u64 = if a >= 0 { a as u64 } else { (-a) as u64 };
        let mb: u64 = if b >= 0 { b as u64 } else { (-b) as u64 };
        assert(mb > 0) by {
            assert(abs_int(o@.0) >= 1);
            assert(abs_int(o@.0) % o@.1 == 0);
            assert(abs_int(o@.0) / o@.1 >= 1) by (nonlinear_arith)
                requires abs_int(o@.0) >= 1, o@.1 >= 1, abs_int(o@.0) % o@.1 == 0;
        }
        let q = ma / mb;
        assert(q <= ma) by (nonlinear_arith)
            requires q == ma / mb, mb >= 1;
        Rational::signed(q, (a < 0) != (b < 0))
    }

    /// Remainder of `trunc_div`, with the sign of `self`.
    pub fn trunc_rem(&self, o: &Rational) -> (r: Rational)
        requires
            is_int(self@),
            is_int(o@),
            o@.0 != 0,
        ensures
            r@ == (trunc_rem(int_of(self@), int_of(o@)), 1int),
    {
        proof {
            use_type_invariant(o);
        }
        let a = self.to_int();
        let b = o.to_int();
        let ma: u64 = if a >= 0 { a as u64 } else { (-a) as u64 };
        let mb: u64 = if b >= 0 { b as u64 } else { (-b) as u64 };
        assert(mb > 0) by {
            assert(abs_int(o@.0) >= 1);
            assert(abs_int(o@.0) / o@.1 >= 1) by (nonlinear_arith)
                requires abs_int(o@.0) >= 1, o@.1 >= 1, abs_int(o@.0) % o@.1 == 0;
        }
        let m = ma % mb;
        Rational::signed(m, a < 0)
    }

    pub fn floor(&self) -> (r: Rational)
        ensures
            r@ == rat_floor(self@),
    {
        let (m, neg) = self.magnitude();
        let d = self.den as u64;
        if neg {
            let q = (m + d - 1) / d;
            assert(q <= m) by (nonlinear_arith)
                requires q == (m as int + d as int - 1) / (d as int), d >= 1, m >= 1;
            Rational::signed(q, true)
        } else {
            let q = m / d;
            assert(q <= m) by (nonlinear_arith)
                requires q == m / d, d >= 1;
            Rational::signed(q, false)
        }
    }

    pub fn ceil(&self) -> (r: Rational)
        ensures
            r@ == rat_ceil(self@),
    {
        let (m, neg) = self.magnitude();
        let d = self.den as u64;
        if neg {
            let q = m / d;
            assert(q <= m) by (nonlinear_arith)
                requires q == m / d, d >= 1;
            Rational::signed(q, true)
        } else {
            let q = (m + d - 1) / d;
            assert(q <= m) by (nonlinear_arith)
                requires q == (m as int + d as int - 1) / (d as int), d >= 1;
            Rational::signed(q, false)
        }
    }

    pub fn round(&self) -> (r: Rational)
        ensures
            r@ == rat_round(self@),
    {
        let (m, neg) = self.magnitude();
        let d = self.den as u128;
        let q = (2 * (m as u128) + d) / (2 * d);
        assert(q <= m) by (nonlinear_arith)
            requires q == (2 * (m as int) + d) / (2 * d), d >= 1, m >= 0;
        Rational::signed(q as u64, neg)
    }

    pub fn abs(&self) -> (r: Rational)
        ensures
            r@ == rat_abs(self@),
    {
        proof {
            use_type_invariant(self);
        }
        let (m, _) = self.magnitude();
        Rational { num: m as i64, den: self.den }
    }
}

} // verus!