//! Arbitrary-precision natural numbers.
//!
//! A `BigNat` holds its digits in base 256, least significant first, and is
//! viewed as the natural number those digits spell. The arithmetic itself is
//! done by `num_bigint`; each call into it sits in one small trusted function
//! whose contract states the result over the numeric view.
use vstd::prelude::*;
use vstd::arithmetic::power::pow;
use num_bigint::BigUint;

verus! {

/// Value of a sequence of base-256 digits, least significant first.
pub open spec fn le_value(s: Seq<u8>) -> nat
    decreases s.len(),
{
    if s.len() == 0 {
        0
    } else {
        s[0] as nat + 256 * le_value(s.subrange(1, s.len() as int))
    }
}

/// The `n` low-order base-256 digits of `v`, least significant first.
pub open spec fn le_bytes(v: nat, n: nat) -> Seq<u8>
    decreases n,
{
    if n == 0 {
        Seq::empty()
    } else {
        seq![(v % 256) as u8] + le_bytes(v / 256, (n - 1) as nat)
    }
}

/// The decimal digit character for `d` (taken modulo ten).
pub open spec fn digit_char(d: nat) -> char {
    let d = d % 10;
    if d == 0 { '0' }
    else if d == 1 { '1' }
    else if d == 2 { '2' }
    else if d == 3 { '3' }
    else if d == 4 { '4' }
    else if d == 5 { '5' }
    else if d == 6 { '6' }
    else if d == 7 { '7' }
    else if d == 8 { '8' }
    else { '9' }
}

/// The value of a decimal digit character, if `c` is one.
pub open spec fn char_digit(c: char) -> Option<nat> {
    if c == '0' { Some(0) }
    else if c == '1' { Some(1) }
    else if c == '2' { Some(2) }
    else if c == '3' { Some(3) }
    else if c == '4' { Some(4) }
    else if c == '5' { Some(5) }
    else if c == '6' { Some(6) }
    else if c == '7' { Some(7) }
    else if c == '8' { Some(8) }
    else if c == '9' { Some(9) }
    else { None }
}

/// Canonical decimal rendering: no sign, no leading zeros, "0" for zero.
pub open spec fn decimal_of(n: nat) -> Seq<char>
    decreases n,
{
    if n < 10 {
        seq![digit_char(n)]
    } else {
        decimal_of(n / 10).push(digit_char(n % 10))
    }
}

/// A non-empty string made of decimal digits only.
pub open spec fn is_decimal(s: Seq<char>) -> bool {
    &&& s.len() > 0
    &&& forall|i: int| 0 <= i < s.len() ==> (#[trigger] char_digit(s[i])) is Some
}

/// The number a string of decimal digits denotes (leading zeros allowed).
pub open spec fn decimal_value(s: Seq<char>) -> nat
    decreases s.len(),
{
    if s.len() == 0 {
        0
    } else {
        let d = match char_digit(s.last()) {
            Some(d) => d,
            None => 0,
        };
        decimal_value(s.drop_last()) * 10 + d
    }
}

pub proof fn lemma_le_bytes_len(v: nat, n: nat)
    ensures
        le_bytes(v, n).len() == n,
    decreases n,
{
    if n > 0 {
        lemma_le_bytes_len(v / 256, (n - 1) as nat);
    }
}

/// `n` digits spell back any number below `256^n`.
pub proof fn lemma_le_bytes_value(v: nat, n: nat)
    requires
        v < pow(256, n),
    ensures
        le_value(le_bytes(v, n)) == v,
    decreases n,
{
    reveal(pow);
    lemma_le_bytes_len(v, n);
    if n > 0 {
        let p = pow(256, (n - 1) as nat);
        assert(v / 256 < p) by (nonlinear_arith)
            requires
                v < 256 * p,
        ;
        lemma_le_bytes_value(v / 256, (n - 1) as nat);
        let s = le_bytes(v, n);
        assert(s.subrange(1, s.len() as int) =~= le_bytes(v / 256, (n - 1) as nat));
    }
}

/// A digit sequence spells a number below `256^len`.
pub proof fn lemma_le_value_bound(s: Seq<u8>)
    ensures
        le_value(s) < pow(256, s.len()),
    decreases s.len(),
{
    reveal(pow);
    if s.len() > 0 {
        let rest = s.subrange(1, s.len() as int);
        lemma_le_value_bound(rest);
        let p = pow(256, rest.len());
        let a = s[0] as nat;
        let b = le_value(rest);
        assert(a + 256 * b < 256 * p) by (nonlinear_arith)
            requires
                a < 256,
                b < p,
        ;
    }
}

/// The eight little-endian bytes of `v`.
pub fn u64_le_bytes(v: u64) -> (r: Vec<u8>)
    ensures
        r@ == le_bytes(v as nat, 8),
{
    let mut out: Vec<u8> = Vec::new();
    let mut cur: u64 = v;
    let mut i: usize = 0;
    while i < 8
        invariant
            i <= 8,
            out@ + le_bytes(cur as nat, (8 - i) as nat) == le_bytes(v as nat, 8),
        decreases 8 - i,
    {
        let ghost prev = out@;
        let ghost k = (8 - i) as nat;
        let b = (cur % 256) as u8;
        out.push(b);
        proof {
            assert(le_bytes(cur as nat, k) == seq![b] + le_bytes((cur / 256) as nat, (k - 1) as nat));
            assert(prev + (seq![b] + le_bytes((cur / 256) as nat, (k - 1) as nat)) =~= out@ + le_bytes(
                (cur / 256) as nat,
                (k - 1) as nat,
            ));
        }
        cur = cur / 256;
        i = i + 1;
    }
    assert(out@ =~= out@ + le_bytes(cur as nat, 0));
    out
}

/// An arbitrary-precision natural number. `==` compares values, whatever
/// the digit layout.
#[derive(Clone, Debug)]
pub struct BigNat {
    pub(crate) digits: Vec<u8>,
}

impl View for BigNat {
    type V = nat;

    closed spec fn view(&self) -> nat {
        le_value(self.digits@)
    }
}

impl BigNat {
    /// The number spelled by `digits`, least significant byte first.
    pub fn from_le_bytes(digits: Vec<u8>) -> (r: BigNat)
        ensures
            r@ == le_value(digits@),
    {
        BigNat { digits }
    }

    pub fn from_u64(v: u64) -> (r: BigNat)
        ensures
            r@ == v,
    {
        proof {
            vstd::arithmetic::power::lemma_pow_positive(256, 8);
            reveal_with_fuel(pow, 9);
            assert(pow(256, 8) == 0x1_0000_0000_0000_0000);
            lemma_le_bytes_value(v as nat, 8);
        }
        BigNat { digits: u64_le_bytes(v) }
    }

    /// A second number with the same value.
    pub fn duplicate(&self) -> (r: BigNat)
        ensures
            r@ == self@,
    {
        let mut digits: Vec<u8> = Vec::new();
        let mut i: usize = 0;
        while i < self.digits.len()
            invariant
                i <= self.digits@.len(),
                digits@ == self.digits@.subrange(0, i as int),
            decreases self.digits@.len() - i,
        {
            digits.push(self.digits[i]);
            i = i + 1;
            assert(digits@ =~= self.digits@.subrange(0, i as int));
        }
        assert(digits@ =~= self.digits@);
        BigNat { digits }
    }

    pub fn is_even(&self) -> (r: bool)
        ensures
            r == (self@ % 2 == 0),
    {
        if self.digits.len() == 0 {
            true
        } else {
            proof {
                let s = self.digits@;
                let a = s[0] as int;
                let b = le_value(s.subrange(1, s.len() as int)) as int;
                assert((a + 256 * b) % 2 == a % 2) by (nonlinear_arith);
            }
            self.digits[0] % 2 == 0
        }
    }

    /// Whether the two numbers are equal (whatever their digit layout).
    pub fn equals(&self, other: &BigNat) -> (r: bool)
        ensures
            r == (self@ == other@),
    {
        !self.less_than(other) && !other.less_than(self)
    }

    /// Parses a non-empty string of decimal digits; anything else gives `None`.
    pub fn from_decimal(s: &str) -> (r: Option<BigNat>)
        ensures
            r is Some <==> is_decimal(s@),
            r matches Some(v) ==> v@ == decimal_value(s@),
    {
        let n = s.unicode_len();
        if n == 0 {
            return None;
        }
        let mut i: usize = 0;
        while i < n
            invariant
                n == s@.len(),
                i <= n,
                forall|j: int| 0 <= j < i ==> (#[trigger] char_digit(s@[j])) is Some,
            decreases n - i,
        {
            let c = s.get_char(i);
            if !is_digit_char(c) {
                return None;
            }
            i = i + 1;
        }
        parse_decimal(s)
    }

    /// Relies on `BigUint`'s `PartialOrd`: `<` compares the numbers.
    #[verifier::external_body]
    pub(crate) fn less_than(&self, other: &BigNat) -> (r: bool)
        ensures
            r == (self@ < other@),
    {
        BigUint::from_bytes_le(&self.digits) < BigUint::from_bytes_le(&other.digits)
    }

    /// Relies on `u64::try_from(&BigUint)`: the value when it fits in 64 bits.
    #[verifier::external_body]
    pub(crate) fn to_u64(&self) -> (r: Option<u64>)
        ensures
            r == (if self@ <= u64::MAX {
                Some(self@ as u64)
            } else {
                None::<u64>
            }),
    {
        u64::try_from(&BigUint::from_bytes_le(&self.digits)).ok()
    }

    /// Relies on `&BigUint + &BigUint`: the sum.
    #[verifier::external_body]
    pub(crate) fn plus(&self, other: &BigNat) -> (r: BigNat)
        ensures
            r@ == self@ + other@,
    {
        let s = BigUint::from_bytes_le(&self.digits) + BigUint::from_bytes_le(&other.digits);
        BigNat { digits: s.to_bytes_le() }
    }

    /// Relies on `&BigUint * &BigUint`: the product.
    #[verifier::external_body]
    pub(crate) fn times(&self, other: &BigNat) -> (r: BigNat)
        ensures
            r@ == self@ * other@,
    {
        let p = BigUint::from_bytes_le(&self.digits) * BigUint::from_bytes_le(&other.digits);
        BigNat { digits: p.to_bytes_le() }
    }

    /// Relies on `&BigUint % &BigUint`: the remainder, for a non-zero divisor
    /// (it panics on zero).
    #[verifier::external_body]
    pub(crate) fn modulo(&self, m: &BigNat) -> (r: BigNat)
        requires
            m@ > 0,
        ensures
            r@ == self@ % m@,
    {
        let q = BigUint::from_bytes_le(&self.digits) % BigUint::from_bytes_le(&m.digits);
        BigNat { digits: q.to_bytes_le() }
    }

    /// Relies on `BigUint::modpow`: `(self ^ e) % m`, which panics on a zero
    /// modulus; a modulus of one is left out as well.
    #[verifier::external_body]
    pub(crate) fn pow_mod(&self, e: &BigNat, m: &BigNat) -> (r: BigNat)
        requires
            m@ > 1,
        ensures
            r@ == pow(self@ as int, e@) % (m@ as int),
    {
        let base = BigUint::from_bytes_le(&self.digits);
        let r = base.modpow(&BigUint::from_bytes_le(&e.digits), &BigUint::from_bytes_le(&m.digits));
        BigNat { digits: r.to_bytes_le() }
    }

    /// Relies on `BigUint::to_str_radix(10)`: plain decimal digits, "0" for zero.
    #[verifier::external_body]
    pub(crate) fn to_decimal(&self) -> (r: String)
        ensures
            r@ == decimal_of(self@),
    {
        BigUint::from_bytes_le(&self.digits).to_str_radix(10)
    }
}

impl PartialEq for BigNat {
    fn eq(&self, other: &BigNat) -> (r: bool) {
        self.equals(other)
    }
}

impl vstd::std_specs::cmp::PartialEqSpecImpl for BigNat {
    open spec fn obeys_eq_spec() -> bool {
        true
    }

    open spec fn eq_spec(&self, other: &BigNat) -> bool {
        self@ == other@
    }
}

impl Eq for BigNat {
}

/// Relies on `BigUint::parse_bytes(_, 10)`: a string of decimal digits
/// parses to the number it denotes.
#[verifier::external_body]
fn parse_decimal(s: &str) -> (r: Option<BigNat>)
    ensures
        is_decimal(s@) ==> r is Some && r.unwrap()@ == decimal_value(s@),
{
    BigUint::parse_bytes(s.as_bytes(), 10).map(|b| BigNat { digits: b.to_bytes_le() })
}

fn is_digit_char(c: char) -> (r: bool)
    ensures
        r == (char_digit(c) is Some),
{
    c == '0' || c == '1' || c == '2' || c == '3' || c == '4' || c == '5' || c == '6' || c == '7'
        || c == '8' || c == '9'
}

} // verus!
