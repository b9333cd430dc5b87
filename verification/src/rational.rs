//! Exact rational numbers of unbounded size.
//!
//! A [`Rational`] keeps its numerator and denominator as little-endian two's
//! complement byte strings, and its view is the real number they denote. The
//! arithmetic itself is done by the `num` crate: each function below that is
//! marked `external_body` reads the bytes into a `Ratio<BigInt>` (by
//! `BigInt::from_signed_bytes_le` and `Ratio::new`), lets `num` compute, and
//! writes the bytes of the answer back (by `BigInt::to_signed_bytes_le`).
//! What those functions promise is believed, not proved: that the two
//! conversions agree with [`signed_le`], and that `num` computes what the
//! operation's name says.
use num::BigInt;
use num::BigRational;
use num::ToPrimitive;
use vstd::prelude::*;

verus! {

/// The integer that a little-endian two's complement byte string denotes.
/// The empty string denotes zero.
pub open spec fn signed_le(bytes: Seq<u8>) -> int
    decreases bytes.len(),
{
    if bytes.len() == 0 {
        0
    } else if bytes.len() == 1 {
        if bytes[0] < 128 {
            bytes[0] as int
        } else {
            bytes[0] as int - 256
        }
    } else {
        bytes[0] as int + 256 * signed_le(bytes.drop_first())
    }
}

/// The quotient of two integers as a real number.
pub open spec fn quotient(numer: int, denom: int) -> real {
    numer as real / denom as real
}

/// The number that a numerator and a denominator denote, each given as a
/// little-endian two's complement byte string.
pub open spec fn value_of(numer: Seq<u8>, denom: Seq<u8>) -> real {
    quotient(signed_le(numer), signed_le(denom))
}

/// The integer part of a real number, rounded towards zero.
pub open spec fn truncate(v: real) -> int {
    if v >= 0real {
        v.floor()
    } else {
        -((-v).floor())
    }
}

/// The character that stands for a decimal digit.
pub open spec fn digit_char(d: int) -> char {
    if d == 0 {
        '0'
    } else if d == 1 {
        '1'
    } else if d == 2 {
        '2'
    } else if d == 3 {
        '3'
    } else if d == 4 {
        '4'
    } else if d == 5 {
        '5'
    } else if d == 6 {
        '6'
    } else if d == 7 {
        '7'
    } else if d == 8 {
        '8'
    } else {
        '9'
    }
}

/// The decimal digits of a natural number, most significant first, without
/// leading zeros.
pub open spec fn digits_text(n: nat) -> Seq<char>
    decreases n,
{
    if n < 10 {
        seq![digit_char(n as int)]
    } else {
        digits_text(n / 10).push(digit_char((n % 10) as int))
    }
}

/// The decimal text of an integer: its digits, after a minus sign if it is
/// negative.
pub open spec fn integer_text(i: int) -> Seq<char> {
    if i < 0 {
        seq!['-'] + digits_text((-i) as nat)
    } else {
        digits_text(i as nat)
    }
}

/// An exact rational number. `==` compares the bytes that are kept, which
/// `num` hands out in lowest terms; in verified code compare two numbers
/// with [`Rational::same`].
#[derive(Debug, PartialEq, Eq)]
pub struct Rational {
    numer: Vec<u8>,
    denom: Vec<u8>,
}

impl View for Rational {
    type V = real;

    closed spec fn view(&self) -> real {
        value_of(self.numer@, self.denom@)
    }
}

impl Clone for Rational {
    fn clone(&self) -> (r: Self)
        ensures
            r@ == self@,
    {
        proof {
            use_type_invariant(self);
        }
        let numer = self.numer.clone();
        let denom = self.denom.clone();
        assert(numer@ =~= self.numer@);
        assert(denom@ =~= self.denom@);
        Rational { numer, denom }
    }
}

/// `signed_le` is zero exactly on the strings of zero bytes.
proof fn lemma_signed_le_zero(bytes: Seq<u8>)
    ensures
        signed_le(bytes) == 0 <==> (forall|i: int| 0 <= i < bytes.len() ==> bytes[i] == 0),
    decreases bytes.len(),
{
    if bytes.len() >= 2 {
        let rest = bytes.drop_first();
        lemma_signed_le_zero(rest);
        if signed_le(bytes) == 0 {
            assert(bytes[0] == 0 && signed_le(rest) == 0);
            assert forall|i: int| 0 <= i < bytes.len() implies bytes[i] == 0 by {
                if i > 0 {
                    assert(rest[i - 1] == bytes[i]);
                }
            }
        }
        if forall|i: int| 0 <= i < bytes.len() ==> bytes[i] == 0 {
            assert forall|i: int| 0 <= i < rest.len() implies rest[i] == 0 by {
                assert(rest[i] == bytes[i + 1]);
            }
        }
    }
}

/// Whether a little-endian two's complement byte string denotes zero.
fn denotes_zero(bytes: &Vec<u8>) -> (zero: bool)
    ensures
        zero == (signed_le(bytes@) == 0),
{
    let mut i: usize = 0;
    while i < bytes.len()
        invariant
            i <= bytes.len(),
            forall|j: int| 0 <= j < i ==> bytes@[j] == 0,
        decreases bytes.len() - i,
    {
        if bytes[i] != 0 {
            proof {
                lemma_signed_le_zero(bytes@);
            }
            return false;
        }
        i += 1;
    }
    proof {
        lemma_signed_le_zero(bytes@);
    }
    true
}

/// Calls `num`'s `Ratio::new` on the two integers that the byte strings
/// denote. `Ratio::new` reduces the fraction and keeps its value; it panics
/// on a zero denominator, which `requires` leaves out.
#[verifier::external_body]
fn ratio_new(numer: &Vec<u8>, denom: &Vec<u8>) -> (q: (Vec<u8>, Vec<u8>))
    requires
        signed_le(denom@) != 0,
    ensures
        signed_le(q.1@) != 0,
        value_of(q.0@, q.1@) == value_of(numer@, denom@),
{
    let q = BigRational::new(
        BigInt::from_signed_bytes_le(numer),
        BigInt::from_signed_bytes_le(denom),
    );
    (q.numer().to_signed_bytes_le(), q.denom().to_signed_bytes_le())
}

/// Calls `num`'s `Ratio::from_integer` on `BigInt::from(n)`: the fraction
/// with the numerator `n` and the denominator one.
#[verifier::external_body]
fn ratio_from_i64(n: i64) -> (q: (Vec<u8>, Vec<u8>))
    ensures
        signed_le(q.0@) == n,
        signed_le(q.1@) == 1,
{
    let q = BigRational::from_integer(BigInt::from(n));
    (q.numer().to_signed_bytes_le(), q.denom().to_signed_bytes_le())
}

/// Calls `num`'s `Ratio::from_integer` on `BigInt::from(n)` for an unsigned
/// `n`: the fraction with the numerator `n` and the denominator one.
#[verifier::external_body]
fn ratio_from_u64(n: u64) -> (q: (Vec<u8>, Vec<u8>))
    ensures
        signed_le(q.0@) == n,
        signed_le(q.1@) == 1,
{
    let q = BigRational::from_integer(BigInt::from(n));
    (q.numer().to_signed_bytes_le(), q.denom().to_signed_bytes_le())
}

/// Calls `num`'s `+` on two `Ratio<BigInt>`: the exact sum, as a fraction
/// with a denominator other than zero.
#[verifier::external_body]
fn ratio_add(a: &Rational, b: &Rational) -> (q: (Vec<u8>, Vec<u8>))
    requires
        signed_le(a.denom@) != 0,
        signed_le(b.denom@) != 0,
    ensures
        signed_le(q.1@) != 0,
        value_of(q.0@, q.1@) == a@ + b@,
{
    let x = BigRational::new(
        BigInt::from_signed_bytes_le(&a.numer),
        BigInt::from_signed_bytes_le(&a.denom),
    );
    let y = BigRational::new(
        BigInt::from_signed_bytes_le(&b.numer),
        BigInt::from_signed_bytes_le(&b.denom),
    );
    let q = x + y;
    (q.numer().to_signed_bytes_le(), q.denom().to_signed_bytes_le())
}

/// Calls `num`'s `-` on two `Ratio<BigInt>`: the exact difference, as a
/// fraction with a denominator other than zero.
#[verifier::external_body]
fn ratio_sub(a: &Rational, b: &Rational) -> (q: (Vec<u8>, Vec<u8>))
    requires
        signed_le(a.denom@) != 0,
        signed_le(b.denom@) != 0,
    ensures
        signed_le(q.1@) != 0,
        value_of(q.0@, q.1@) == a@ - b@,
{
    let x = BigRational::new(
        BigInt::from_signed_bytes_le(&a.numer),
        BigInt::from_signed_bytes_le(&a.denom),
    );
    let y = BigRational::new(
        BigInt::from_signed_bytes_le(&b.numer),
        BigInt::from_signed_bytes_le(&b.denom),
    );
    let q = x - y;
    (q.numer().to_signed_bytes_le(), q.denom().to_signed_bytes_le())
}

/// Calls `num`'s `*` on two `Ratio<BigInt>`: the exact product, as a
/// fraction with a denominator other than zero.
#[verifier::external_body]
fn ratio_mul(a: &Rational, b: &Rational) -> (q: (Vec<u8>, Vec<u8>))
    requires
        signed_le(a.denom@) != 0,
        signed_le(b.denom@) != 0,
    ensures
        signed_le(q.1@) != 0,
        value_of(q.0@, q.1@) == a@ * b@,
{
    let x = BigRational::new(
        BigInt::from_signed_bytes_le(&a.numer),
        BigInt::from_signed_bytes_le(&a.denom),
    );
    let y = BigRational::new(
        BigInt::from_signed_bytes_le(&b.numer),
        BigInt::from_signed_bytes_le(&b.denom),
    );
    let q = x * y;
    (q.numer().to_signed_bytes_le(), q.denom().to_signed_bytes_le())
}

/// Calls `num`'s `/` on two `Ratio<BigInt>`: the exact quotient, as a
/// fraction with a denominator other than zero. `num` panics on a zero
/// divisor, which `requires` leaves out.
#[verifier::external_body]
fn ratio_div(a: &Rational, b: &Rational) -> (q: (Vec<u8>, Vec<u8>))
    requires
        signed_le(a.denom@) != 0,
        signed_le(b.denom@) != 0,
        b@ != 0real,
    ensures
        signed_le(q.1@) != 0,
        value_of(q.0@, q.1@) == a@ / b@,
{
    let x = BigRational::new(
        BigInt::from_signed_bytes_le(&a.numer),
        BigInt::from_signed_bytes_le(&a.denom),
    );
    let y = BigRational::new(
        BigInt::from_signed_bytes_le(&b.numer),
        BigInt::from_signed_bytes_le(&b.denom),
    );
    let q = x / y;
    (q.numer().to_signed_bytes_le(), q.denom().to_signed_bytes_le())
}

/// Calls `num`'s `<` on two `Ratio<BigInt>`, which orders them as numbers.
#[verifier::external_body]
fn ratio_lt(a: &Rational, b: &Rational) -> (less: bool)
    requires
        signed_le(a.denom@) != 0,
        signed_le(b.denom@) != 0,
    ensures
        less == (a@ < b@),
{
    let x = BigRational::new(
        BigInt::from_signed_bytes_le(&a.numer),
        BigInt::from_signed_bytes_le(&a.denom),
    );
    let y = BigRational::new(
        BigInt::from_signed_bytes_le(&b.numer),
        BigInt::from_signed_bytes_le(&b.denom),
    );
    x < y
}

/// Calls `num`'s `Ratio::trunc`: the integer part, rounded towards zero, as
/// a fraction with the denominator one.
#[verifier::external_body]
fn ratio_trunc(a: &Rational) -> (q: (Vec<u8>, Vec<u8>))
    requires
        signed_le(a.denom@) != 0,
    ensures
        signed_le(q.0@) == truncate(a@),
        signed_le(q.1@) == 1,
{
    let x = BigRational::new(
        BigInt::from_signed_bytes_le(&a.numer),
        BigInt::from_signed_bytes_le(&a.denom),
    );
    let q = x.trunc();
    (q.numer().to_signed_bytes_le(), q.denom().to_signed_bytes_le())
}

/// Formats `num`'s `Ratio::to_integer` with `{}`: `BigInt` prints the
/// integer part in decimal, with a minus sign where it is negative.
#[verifier::external_body]
fn ratio_integer_text(a: &Rational) -> (text: String)
    requires
        signed_le(a.denom@) != 0,
    ensures
        text@ == integer_text(truncate(a@)),
{
    let x = BigRational::new(
        BigInt::from_signed_bytes_le(&a.numer),
        BigInt::from_signed_bytes_le(&a.denom),
    );
    format!("{}", x.to_integer())
}

/// Calls `num`'s `to_u64` on `Ratio::to_integer`: the integer part where it
/// lies between zero and the largest `u64`, and nothing otherwise.
#[verifier::external_body]
fn ratio_to_u64(a: &Rational) -> (n: Option<u64>)
    requires
        signed_le(a.denom@) != 0,
    ensures
        n.is_some() == (0 <= truncate(a@) <= u64::MAX),
        n.is_some() ==> n.unwrap() == truncate(a@),
{
    let x = BigRational::new(
        BigInt::from_signed_bytes_le(&a.numer),
        BigInt::from_signed_bytes_le(&a.denom),
    );
    x.to_integer().to_u64()
}

impl Rational {
    /// The denominator is never zero.
    #[verifier::type_invariant]
    spec fn valid(self) -> bool {
        signed_le(self.denom@) != 0
    }

    /// The number `numer / denom`, the two given as little-endian two's
    /// complement byte strings; `None` where the denominator is zero.
    pub fn from_parts(numer: &Vec<u8>, denom: &Vec<u8>) -> (r: Option<Rational>)
        ensures
            r.is_some() == (signed_le(denom@) != 0),
            r.is_some() ==> r.unwrap()@ == value_of(numer@, denom@),
    {
        if denotes_zero(denom) {
            None
        } else {
            let q = ratio_new(numer, denom);
            Some(Rational { numer: q.0, denom: q.1 })
        }
    }

    /// Numerator and denominator as little-endian two's complement byte
    /// strings.
    pub fn to_parts(&self) -> (parts: (Vec<u8>, Vec<u8>))
        ensures
            signed_le(parts.1@) != 0,
            self@ == value_of(parts.0@, parts.1@),
    {
        proof {
            use_type_invariant(self);
        }
        let numer = self.numer.clone();
        let denom = self.denom.clone();
        assert(numer@ =~= self.numer@);
        assert(denom@ =~= self.denom@);
        (numer, denom)
    }

    /// The rational number equal to a signed integer.
    pub fn from_i64(n: i64) -> (r: Rational)
        ensures
            r@ == n as real,
    {
        let q = ratio_from_i64(n);
        assert(value_of(q.0@, q.1@) == (n as int) as real / 1real);
        Rational { numer: q.0, denom: q.1 }
    }

    /// The rational number equal to an unsigned integer.
    pub fn from_u64(n: u64) -> (r: Rational)
        ensures
            r@ == n as real,
    {
        let q = ratio_from_u64(n);
        assert(value_of(q.0@, q.1@) == (n as int) as real / 1real);
        Rational { numer: q.0, denom: q.1 }
    }

    /// The rational number equal to a count.
    pub fn from_usize(n: usize) -> (r: Rational)
        ensures
            r@ == n as real,
    {
        Rational::from_u64(n as u64)
    }

    /// `self + rhs`, exactly.
    pub fn plus(&self, rhs: &Rational) -> (r: Rational)
        ensures
            r@ == self@ + rhs@,
    {
        proof {
            use_type_invariant(self);
            use_type_invariant(rhs);
        }
        let q = ratio_add(self, rhs);
        Rational { numer: q.0, denom: q.1 }
    }

    /// `self - rhs`, exactly.
    pub fn minus(&self, rhs: &Rational) -> (r: Rational)
        ensures
            r@ == self@ - rhs@,
    {
        proof {
            use_type_invariant(self);
            use_type_invariant(rhs);
        }
        let q = ratio_sub(self, rhs);
        Rational { numer: q.0, denom: q.1 }
    }

    /// `self * rhs`, exactly.
    pub fn times(&self, rhs: &Rational) -> (r: Rational)
        ensures
            r@ == self@ * rhs@,
    {
        proof {
            use_type_invariant(self);
            use_type_invariant(rhs);
        }
        let q = ratio_mul(self, rhs);
        Rational { numer: q.0, denom: q.1 }
    }

    /// `self / rhs`, exactly; `None` where `rhs` is zero.
    pub fn divided_by(&self, rhs: &Rational) -> (r: Option<Rational>)
        ensures
            r.is_some() == (rhs@ != 0real),
            r.is_some() ==> r.unwrap()@ == self@ / rhs@,
    {
        if rhs.is_zero() {
            None
        } else {
            proof {
                use_type_invariant(self);
                use_type_invariant(rhs);
            }
            let q = ratio_div(self, rhs);
            Some(Rational { numer: q.0, denom: q.1 })
        }
    }

    /// Whether the number is zero.
    pub fn is_zero(&self) -> (zero: bool)
        ensures
            zero == (self@ == 0real),
    {
        let zero = denotes_zero(&self.numer);
        proof {
            use_type_invariant(self);
            let n = signed_le(self.numer@);
            let d = signed_le(self.denom@);
            assert((n as real / d as real == 0real) <==> n == 0) by (nonlinear_arith)
                requires
                    d != 0,
            ;
        }
        zero
    }

    /// Whether `self < rhs`.
    pub fn lt(&self, rhs: &Rational) -> (less: bool)
        ensures
            less == (self@ < rhs@),
    {
        proof {
            use_type_invariant(self);
            use_type_invariant(rhs);
        }
        ratio_lt(self, rhs)
    }

    /// Whether `self <= rhs`.
    pub fn le(&self, rhs: &Rational) -> (at_most: bool)
        ensures
            at_most == (self@ <= rhs@),
    {
        !rhs.lt(self)
    }

    /// Whether `self > rhs`.
    pub fn gt(&self, rhs: &Rational) -> (greater: bool)
        ensures
            greater == (self@ > rhs@),
    {
        rhs.lt(self)
    }

    /// Whether the two numbers are equal.
    pub fn same(&self, rhs: &Rational) -> (equal: bool)
        ensures
            equal == (self@ == rhs@),
    {
        !self.lt(rhs) && !rhs.lt(self)
    }

    /// The integer part, rounded towards zero.
    pub fn trunc(&self) -> (r: Rational)
        ensures
            r@ == truncate(self@) as real,
    {
        proof {
            use_type_invariant(self);
        }
        let q = ratio_trunc(self);
        assert(value_of(q.0@, q.1@) == truncate(self@) as real / 1real);
        Rational { numer: q.0, denom: q.1 }
    }

    /// What is left of the number when its integer part is taken away.
    pub fn fract(&self) -> (r: Rational)
        ensures
            r@ == self@ - truncate(self@) as real,
    {
        self.minus(&self.trunc())
    }

    /// The integer part, rounded towards zero, where a `u64` can hold it.
    pub fn to_u64(&self) -> (n: Option<u64>)
        ensures
            n.is_some() == (0 <= truncate(self@) <= u64::MAX),
            n.is_some() ==> n.unwrap() == truncate(self@),
    {
        proof {
            use_type_invariant(self);
        }
        ratio_to_u64(self)
    }

    /// The integer part, rounded towards zero, in decimal.
    pub fn integer_string(&self) -> (text: String)
        ensures
            text@ == integer_text(truncate(self@)),
    {
        proof {
            use_type_invariant(self);
        }
        ratio_integer_text(self)
    }
}

} // verus!
