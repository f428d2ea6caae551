//! Monetary amounts: exact signed fractions of unbounded size.
//!
//! An [`Amount`] holds a sign and the base-2^32 digits of a numerator and a
//! denominator. The arithmetic itself is done by the `fraction` crate on its
//! `BigFraction`; the functions that call it are trusted, and each says so.

use vstd::prelude::*;
use vstd::string::StrSliceExecFns;
use crate::rational::Rational;
use fraction::BigFraction;
use fraction::BigUint;
use fraction::Sign;
use std::str::FromStr;

verus! {

/// The number that base-2^32 digits stand for, least significant digit first.
pub open spec fn limbs_value(limbs: Seq<u32>) -> nat
    decreases limbs.len(),
{
    if limbs.len() == 0 {
        0
    } else {
        limbs[0] as nat + 4294967296 * limbs_value(limbs.drop_first())
    }
}

/// Trusted: the `fraction` crate's `Sign`, an enum of the two variants `Plus`
/// and `Minus` without fields. It is declared with its variants, so that an
/// [`Amount`] can hold its sign as the crate hands it out and takes it back.
#[verifier::external_type_specification]
pub struct ExSign(fraction::Sign);

/// An exact signed fraction.
#[derive(Debug)]
pub struct Amount {
    pub sign: Sign,
    pub numer: Vec<u32>,
    pub denom: Vec<u32>,
}

/// What an [`Amount`] holds, as mathematical sequences.
pub struct AmountView {
    pub negative: bool,
    pub numer: Seq<u32>,
    pub denom: Seq<u32>,
}

impl AmountView {
    /// The denominator is not zero.
    pub open spec fn wf(self) -> bool {
        limbs_value(self.denom) > 0
    }

    /// The fraction that the digits and the sign stand for.
    pub open spec fn value(self) -> Rational {
        Rational {
            num: if self.negative {
                -(limbs_value(self.numer) as int)
            } else {
                limbs_value(self.numer) as int
            },
            den: limbs_value(self.denom) as int,
        }
    }
}

impl View for Amount {
    type V = AmountView;

    open spec fn view(&self) -> AmountView {
        AmountView { negative: self.sign == Sign::Minus, numer: self.numer@, denom: self.denom@ }
    }
}

/// The digits and sign that `BigFraction`'s addition gives for two fractions.
pub uninterp spec fn fraction_sum(a: AmountView, b: AmountView) -> AmountView;

/// The digits and sign that `BigFraction`'s subtraction gives for two fractions.
pub uninterp spec fn fraction_difference(a: AmountView, b: AmountView) -> AmountView;

/// What `BigFraction`'s `from_str` makes of a text: the digits and sign of
/// the fraction, or `None` where it reports an error.
pub uninterp spec fn fraction_parse(text: Seq<char>) -> Option<AmountView>;

/// The text that `BigFraction`'s `Display` writes for a fraction when asked
/// for four decimal places with trailing zeros (`{:#.4}`).
pub uninterp spec fn fraction_text_padded(a: AmountView) -> Seq<char>;

/// The text that `BigFraction`'s `Display` writes for a fraction when asked
/// for at most four decimal places (`{:.4}`).
pub uninterp spec fn fraction_text_short(a: AmountView) -> Seq<char>;

/// Trusted: `BigFraction`'s `Add`. Both arguments are rebuilt from their
/// digits with `BigUint::new` and `BigFraction::new_generic`, which reduces
/// the fraction and accepts any non-zero denominator; the sum is taken apart
/// again with `sign`, `numer`, `denom` and `to_u32_digits`. The contract
/// claims that the result is a fraction again, that its number is the sum of
/// the two numbers, and that its digits depend on the arguments alone.
#[verifier::external_body]
fn fraction_add(a: &Amount, b: &Amount) -> (r: Amount)
    requires
        a@.wf(),
        b@.wf(),
    ensures
        r@ == fraction_sum(a@, b@),
        r@.wf(),
        r@.value().eqv(a@.value().plus(b@.value())),
{
    let (n, d) = (BigUint::new(a.numer.clone()), BigUint::new(a.denom.clone()));
    let x = BigFraction::new_generic(a.sign, n, d).unwrap();
    let (n, d) = (BigUint::new(b.numer.clone()), BigUint::new(b.denom.clone()));
    let z = x + BigFraction::new_generic(b.sign, n, d).unwrap();
    Amount {
        sign: z.sign().unwrap(),
        numer: z.numer().unwrap().to_u32_digits(),
        denom: z.denom().unwrap().to_u32_digits(),
    }
}

/// Trusted: `BigFraction`'s `Sub`, called as [`fraction_add`] calls `Add`.
/// The contract claims that the result is a fraction again, that its number
/// is the first number less the second, and that its digits depend on the
/// arguments alone.
#[verifier::external_body]
fn fraction_sub(a: &Amount, b: &Amount) -> (r: Amount)
    requires
        a@.wf(),
        b@.wf(),
    ensures
        r@ == fraction_difference(a@, b@),
        r@.wf(),
        r@.value().eqv(a@.value().minus(b@.value())),
{
    let (n, d) = (BigUint::new(a.numer.clone()), BigUint::new(a.denom.clone()));
    let x = BigFraction::new_generic(a.sign, n, d).unwrap();
    let (n, d) = (BigUint::new(b.numer.clone()), BigUint::new(b.denom.clone()));
    let z = x - BigFraction::new_generic(b.sign, n, d).unwrap();
    Amount {
        sign: z.sign().unwrap(),
        numer: z.numer().unwrap().to_u32_digits(),
        denom: z.denom().unwrap().to_u32_digits(),
    }
}

/// Trusted: `BigFraction`'s `<`, which orders fractions by their numbers
/// (zero is zero under either sign). The arguments are rebuilt as in
/// [`fraction_add`].
#[verifier::external_body]
fn fraction_lt(a: &Amount, b: &Amount) -> (r: bool)
    requires
        a@.wf(),
        b@.wf(),
    ensures
        r == a@.value().lt(b@.value()),
{
    let (n, d) = (BigUint::new(a.numer.clone()), BigUint::new(a.denom.clone()));
    let x = BigFraction::new_generic(a.sign, n, d).unwrap();
    let (n, d) = (BigUint::new(b.numer.clone()), BigUint::new(b.denom.clone()));
    x < BigFraction::new_generic(b.sign, n, d).unwrap()
}

/// Trusted: `BigFraction`'s `from_str`. A text with a `/` in it is kept out,
/// because `from_str` panics on a zero denominator. The contract claims that
/// the outcome depends on the text alone and that a fraction that comes back
/// has a non-zero denominator. It claims nothing of which texts are read, nor
/// of the number that is read from one.
#[verifier::external_body]
fn fraction_from_str(text: &str) -> (r: Option<Amount>)
    requires
        !text@.contains('/'),
    ensures
        r.is_some() == fraction_parse(text@).is_some(),
        r matches Some(a) ==> a@ == fraction_parse(text@).unwrap() && a@.wf(),
{
    let z = BigFraction::from_str(text).ok()?;
    Some(Amount {
        sign: z.sign()?,
        numer: z.numer()?.to_u32_digits(),
        denom: z.denom()?.to_u32_digits(),
    })
}

/// Trusted: `BigFraction`'s `Display` with the format `{:#.4}`. The contract
/// claims that the text depends on the fraction alone; for a non-zero
/// denominator the formatter reports no error.
#[verifier::external_body]
fn fraction_format_padded(a: &Amount) -> (r: String)
    requires
        a@.wf(),
    ensures
        r@ == fraction_text_padded(a@),
{
    let (n, d) = (BigUint::new(a.numer.clone()), BigUint::new(a.denom.clone()));
    format!("{:#.4}", BigFraction::new_generic(a.sign, n, d).unwrap())
}

/// Trusted: `BigFraction`'s `Display` with the format `{:.4}`. The contract
/// claims that the text depends on the fraction alone; for a non-zero
/// denominator the formatter reports no error.
#[verifier::external_body]
fn fraction_format_short(a: &Amount) -> (r: String)
    requires
        a@.wf(),
    ensures
        r@ == fraction_text_short(a@),
{
    let (n, d) = (BigUint::new(a.numer.clone()), BigUint::new(a.denom.clone()));
    format!("{:.4}", BigFraction::new_generic(a.sign, n, d).unwrap())
}

/// What a text in decimal notation stands for: a text with a `/` in it is no
/// decimal notation; any other is what the fraction parser makes of it.
pub open spec fn decimal_parse(text: Seq<char>) -> Option<AmountView> {
    if text.contains('/') {
        None
    } else {
        fraction_parse(text)
    }
}

/// Whether the text holds a `/`.
pub fn has_slash(text: &str) -> (r: bool)
    ensures
        r == text@.contains('/'),
{
    let n = text.unicode_len();
    let mut i: usize = 0;
    while i < n
        invariant
            n == text@.len(),
            i <= n,
            forall|j: int| 0 <= j < i ==> text@[j] != '/',
        decreases n - i,
    {
        if text.get_char(i) == '/' {
            return true;
        }
        i += 1;
    }
    false
}

impl Amount {
    /// The denominator is not zero.
    pub open spec fn wf(&self) -> bool {
        self@.wf()
    }

    /// The fraction that this amount stands for.
    pub open spec fn value(&self) -> Rational {
        self@.value()
    }

    /// The amount 0.
    pub fn zero() -> (r: Amount)
        ensures
            r.wf(),
            r@ == Amount::zero_view(),
            r.value() == Rational::zero(),
    {
        let mut denom: Vec<u32> = Vec::new();
        denom.push(1u32);
        let r = Amount { sign: Sign::Plus, numer: Vec::new(), denom };
        proof {
            Amount::lemma_zero_view();
            assert(r@.numer =~= Amount::zero_view().numer);
            assert(r@.denom =~= Amount::zero_view().denom);
        }
        r
    }

    /// The digits of the amount 0.
    pub open spec fn zero_view() -> AmountView {
        AmountView { negative: false, numer: Seq::empty(), denom: seq![1u32] }
    }

    /// The digits of [`Amount::zero_view`] stand for 0 / 1.
    pub proof fn lemma_zero_view()
        ensures
            Amount::zero_view().wf(),
            Amount::zero_view().value() == Rational::zero(),
    {
        let d = seq![1u32];
        assert(d.len() == 1);
        assert(d[0] == 1u32);
        assert(d.drop_first().len() == 0);
        assert(limbs_value(d.drop_first()) == 0);
        assert(limbs_value(d) == 1) by {
            reveal_with_fuel(limbs_value, 2);
        }
        assert(limbs_value(Seq::<u32>::empty()) == 0);
    }

    /// The sum of two amounts.
    pub fn sum(&self, other: &Amount) -> (r: Amount)
        requires
            self.wf(),
            other.wf(),
        ensures
            r@ == fraction_sum(self@, other@),
            r.wf(),
            r.value().eqv(self.value().plus(other.value())),
    {
        fraction_add(self, other)
    }

    /// This amount less the other.
    pub fn difference(&self, other: &Amount) -> (r: Amount)
        requires
            self.wf(),
            other.wf(),
        ensures
            r@ == fraction_difference(self@, other@),
            r.wf(),
            r.value().eqv(self.value().minus(other.value())),
    {
        fraction_sub(self, other)
    }

    /// Whether this amount is less than the other, as numbers.
    pub fn less_than(&self, other: &Amount) -> (r: bool)
        requires
            self.wf(),
            other.wf(),
        ensures
            r == self.value().lt(other.value()),
    {
        fraction_lt(self, other)
    }

    /// Reads a number in decimal notation, such as `12.5` or `-3`. A text
    /// with a `/` in it is refused without asking the parser.
    pub fn parse(text: &str) -> (r: Option<Amount>)
        ensures
            r.is_some() == decimal_parse(text@).is_some(),
            r matches Some(a) ==> a@ == decimal_parse(text@).unwrap() && a.wf(),
    {
        if has_slash(text) {
            None
        } else {
            fraction_from_str(text)
        }
    }

    /// Whether the amount is below zero.
    pub fn is_negative(&self) -> (r: bool)
        requires
            self.wf(),
        ensures
            r == self.value().lt(Rational::zero()),
    {
        let zero = Amount::zero();
        fraction_lt(self, &zero)
    }

    /// Whether the two amounts are the same number.
    pub fn same_value(&self, other: &Amount) -> (r: bool)
        requires
            self.wf(),
            other.wf(),
        ensures
            r == self.value().eqv(other.value()),
    {
        !fraction_lt(self, other) && !fraction_lt(other, self)
    }

    /// The amount with four decimal places, as the output shows it.
    pub fn to_padded_text(&self) -> (r: String)
        requires
            self.wf(),
        ensures
            r@ == fraction_text_padded(self@),
    {
        fraction_format_padded(self)
    }

    /// The amount with at most four decimal places, as messages show it.
    pub fn to_short_text(&self) -> (r: String)
        requires
            self.wf(),
        ensures
            r@ == fraction_text_short(self@),
    {
        fraction_format_short(self)
    }

    /// A copy of the amount, digit for digit.
    pub fn duplicate(&self) -> (r: Amount)
        ensures
            r@ == self@,
    {
        let r = Amount {
            sign: self.sign,
            numer: self.numer.clone(),
            denom: self.denom.clone(),
        };
        assert(r@.numer =~= self@.numer);
        assert(r@.denom =~= self@.denom);
        r
    }
}

} // verus!
