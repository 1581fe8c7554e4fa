//! Money tagged with its currency at the type level.
//!
//! `Money<C>` can only be added to or compared with another `Money<C>` of the
//! same currency `C`; mixing `Money<Usd>` with `Money<Eur>` does not compile.
//! Addition saturates at the bounds of `i64`.

use std::marker::PhantomData;
use std::ops::Add;
use vstd::prelude::*;
use vstd::std_specs::ops::AddSpec;
use crate::decimal::{int_decimal, nat_decimal, digit_char, push_decimal};
use crate::safediv::{abs, trunc_div};

verus! {

/// Marker trait for currency types: zero-sized unit structs like `Usd`, `Eur`,
/// `Jpy` that exist only to tell `Money<Usd>` from `Money<Eur>` apart.
pub trait Currency {
    /// The currency's code, as text.
    spec fn spec_code() -> Seq<char>;

    /// Three-letter ISO-4217 code printed after an amount.
    fn code() -> (code: &'static str)
        ensures
            code@ == Self::spec_code(),
    ;
}

/// US dollar tag. Zero-sized; only the type matters.
#[derive(Debug, Clone, Copy, PartialEq, Eq)]
pub struct Usd;

impl Currency for Usd {
    open spec fn spec_code() -> Seq<char> {
        "USD"@
    }

    fn code() -> (code: &'static str) {
        "USD"
    }
}

/// Euro tag.
#[derive(Debug, Clone, Copy, PartialEq, Eq)]
pub struct Eur;

impl Currency for Eur {
    open spec fn spec_code() -> Seq<char> {
        "EUR"@
    }

    fn code() -> (code: &'static str) {
        "EUR"
    }
}

/// Japanese yen tag.
#[derive(Debug, Clone, Copy, PartialEq, Eq)]
pub struct Jpy;

impl Currency for Jpy {
    open spec fn spec_code() -> Seq<char> {
        "JPY"@
    }

    fn code() -> (code: &'static str) {
        "JPY"
    }
}

/// An amount of whole cents, tagged with a currency at the type level.
#[derive(Debug, Copy)]
pub struct Money<C: Currency> {
    cents: i64,
    _currency: PhantomData<C>,
}

impl<C: Currency + Copy> Clone for Money<C> {
    fn clone(&self) -> (m: Self)
        ensures
            m == *self,
    {
        *self
    }
}

impl<C: Currency> PartialEq for Money<C> {
    /// Two amounts of the same currency are equal when their cents are.
    fn eq(&self, other: &Self) -> (same: bool) {
        self.cents == other.cents
    }
}

impl<C: Currency> vstd::std_specs::cmp::PartialEqSpecImpl for Money<C> {
    open spec fn obeys_eq_spec() -> bool {
        true
    }

    open spec fn eq_spec(&self, other: &Self) -> bool {
        self@ == other@
    }
}

impl<C: Currency> Eq for Money<C> {
}

impl<C: Currency> View for Money<C> {
    /// The amount in cents.
    type V = i64;

    closed spec fn view(&self) -> i64 {
        self.cents
    }
}

/// `x` clamped into the range of `i64`.
pub open spec fn saturate_i64(x: int) -> i64 {
    if x > i64::MAX {
        i64::MAX
    } else if x < i64::MIN {
        i64::MIN
    } else {
        x as i64
    }
}

/// Add two `i64`s, clamping the sum to the bounds of `i64`.
fn saturating_add(a: i64, b: i64) -> (s: i64)
    ensures
        s == saturate_i64(a + b),
{
    match a.checked_add(b) {
        Some(s) => s,
        None => if b > 0 {
            i64::MAX
        } else {
            i64::MIN
        },
    }
}

/// The text of an amount of `cents` in the currency with code `code`: the
/// truncated whole units, a point, the two cent digits of the magnitude, a
/// space and the code.
pub open spec fn money_text(cents: int, code: Seq<char>) -> Seq<char> {
    let frac = abs(cents) % 100;
    int_decimal(trunc_div(cents, 100)) + seq!['.', digit_char(frac / 10), digit_char(frac % 10)]
        + seq![' '] + code
}

impl<C: Currency> Money<C> {
    /// Construct `Money` from a whole-cent integer amount.
    pub fn from_cents(cents: i64) -> (m: Self)
        ensures
            m@ == cents,
    {
        Self { cents, _currency: PhantomData }
    }

    /// Inspect the underlying cent amount.
    pub fn cents(self) -> (c: i64)
        ensures
            c == self@,
    {
        self.cents
    }

    /// The amount as text: `"{whole}.{cents:02} {code}"`, e.g. `5.49 USD`.
    pub fn to_string(&self) -> (s: String)
        ensures
            s@ == money_text(self@ as int, C::spec_code()),
    {
        let cents = self.cents;
        let mag: u64 = if cents < 0 { (-(cents + 1)) as u64 + 1 } else { cents as u64 };
        assert(mag == abs(cents as int));
        let whole = mag / 100;
        let frac = mag % 100;
        let mut s = String::new();
        if cents < 0 && whole > 0 {
            s.append("-");
        }
        push_decimal(&mut s, whole);
        s.append(".");
        push_decimal(&mut s, frac / 10);
        push_decimal(&mut s, frac % 10);
        s.append(" ");
        s.append(C::code());
        proof {
            reveal_strlit("-");
            reveal_strlit(".");
            reveal_strlit(" ");
            assert(nat_decimal((frac / 10) as nat) == seq![digit_char((frac / 10) as int)]);
            assert(nat_decimal((frac % 10) as nat) == seq![digit_char((frac % 10) as int)]);
            if cents < 0 && whole > 0 {
                assert(trunc_div(cents as int, 100) == -(whole as int));
            } else {
                assert(trunc_div(cents as int, 100) == whole as int);
            }
        }
        s
    }
}

impl<C: Currency> Add for Money<C> {
    type Output = Money<C>;

    /// The sum of two amounts of the same currency, saturating at the bounds of `i64`.
    fn add(self, rhs: Self) -> (sum: Self)
        ensures
            sum@ == saturate_i64(self@ + rhs@),
            i64::MIN <= self@ + rhs@ <= i64::MAX ==> sum@ == self@ + rhs@,
            self@ + rhs@ > i64::MAX ==> sum@ == i64::MAX,
            self@ + rhs@ < i64::MIN ==> sum@ == i64::MIN,
    {
        Money::from_cents(saturating_add(self.cents, rhs.cents))
    }
}

impl<C: Currency> vstd::std_specs::ops::AddSpecImpl for Money<C> {
    open spec fn obeys_add_spec() -> bool {
        true
    }

    open spec fn add_req(self, rhs: Self) -> bool {
        true
    }

    closed spec fn add_spec(self, rhs: Self) -> Self {
        Money { cents: saturate_i64(self.cents + rhs.cents), _currency: PhantomData }
    }
}

/// The cents of a sum are the cents of the two summands added, clamped to the
/// range of `i64`.
pub proof fn law_add_saturates<C: Currency>(a: Money<C>, b: Money<C>)
    ensures
        a.add_spec(b)@ == saturate_i64(a@ + b@),
{
}

/// A sum is exact whenever it fits in `i64`; only a sum beyond the range of
/// `i64` is clamped, to the bound it passed.
pub proof fn law_add_exact_in_range<C: Currency>(a: Money<C>, b: Money<C>)
    ensures
        i64::MIN <= a@ + b@ <= i64::MAX ==> a.add_spec(b)@ == a@ + b@,
        a@ + b@ > i64::MAX ==> a.add_spec(b)@ == i64::MAX,
        a@ + b@ < i64::MIN ==> a.add_spec(b)@ == i64::MIN,
{
}

/// The text of an amount: a `-` exactly when the amount is at most -100
/// cents, the decimal digits of the whole units of its magnitude, a point,
/// the two cent digits of its magnitude, a space and the code.
pub proof fn law_money_text_parts(cents: int, code: Seq<char>)
    ensures
        money_text(cents, code) == (if cents <= -100 { seq!['-'] } else { Seq::<char>::empty() })
            + nat_decimal((abs(cents) / 100) as nat)
            + seq!['.', digit_char((abs(cents) % 100) / 10), digit_char(abs(cents) % 10)]
            + seq![' '] + code,
{
    let m = abs(cents);
    assert((m % 100) % 10 == m % 10);
    if cents < 0 {
        assert(trunc_div(cents, 100) == -(m / 100));
        if m / 100 == 0 {
            assert(int_decimal(trunc_div(cents, 100)) == nat_decimal(0));
            assert(Seq::<char>::empty() + nat_decimal(0) =~= nat_decimal(0));
        }
    } else {
        assert(Seq::<char>::empty() + nat_decimal((m / 100) as nat) =~= nat_decimal((m / 100) as nat));
    }
}

/// Negating an amount of at least one whole unit only puts a `-` in front of
/// its text.
pub proof fn law_money_text_negation(cents: int, code: Seq<char>)
    requires
        cents >= 100,
    ensures
        money_text(-cents, code) == seq!['-'] + money_text(cents, code),
{
    law_money_text_parts(cents, code);
    law_money_text_parts(-cents, code);
    assert(seq!['-'] + money_text(cents, code) =~= money_text(-cents, code));
}

/// Addition of money is commutative.
pub proof fn law_add_commutative<C: Currency>(a: Money<C>, b: Money<C>)
    ensures
        a.add_spec(b) == b.add_spec(a),
{
}

/// The line that [`run`] returns.
pub open spec fn run_marker() -> Seq<char> {
    "contract: Money<C> + Money<C> is currency-safe (USD=5.49 USD, JPY=3.50 JPY) \u{2014} OK"@
}

/// Demo: sum a USD ledger and a JPY ledger and return the marker line, which
/// shows both totals as text.
pub fn run() -> (line: String)
    ensures
        line@ == run_marker(),
{
    let a: Money<Usd> = Money::from_cents(1_99);
    let b: Money<Usd> = Money::from_cents(3_50);
    let total = a + b;
    assert(total@ == 5_49);

    let yen_a: Money<Jpy> = Money::from_cents(100);
    let yen_b: Money<Jpy> = Money::from_cents(250);
    let yen_total = yen_a + yen_b;
    assert(yen_total@ == 350);

    let total_text = total.to_string();
    let yen_text = yen_total.to_string();
    proof {
        reveal_strlit("USD");
        reveal_strlit("JPY");
        reveal_strlit("5.49 USD");
        reveal_strlit("3.50 JPY");
        assert(nat_decimal(5) == seq!['5']);
        assert(nat_decimal(3) == seq!['3']);
        assert(trunc_div(549, 100) == 5);
        assert(trunc_div(350, 100) == 3);
        assert(total_text@ =~= "5.49 USD"@);
        assert(yen_text@ =~= "3.50 JPY"@);
    }
    let mut line = String::from_str("contract: Money<C> + Money<C> is currency-safe (USD=");
    line.append(total_text.as_str());
    line.append(", JPY=");
    line.append(yen_text.as_str());
    line.append(") \u{2014} OK");
    proof {
        reveal_strlit("contract: Money<C> + Money<C> is currency-safe (USD=");
        reveal_strlit(", JPY=");
        reveal_strlit(") \u{2014} OK");
        reveal_strlit("contract: Money<C> + Money<C> is currency-safe (USD=5.49 USD, JPY=3.50 JPY) \u{2014} OK");
        assert(line@ =~= run_marker());
    }
    line
}

} // verus!
