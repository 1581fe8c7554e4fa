use provable_contracts::newtype::{run, Currency, Eur, Jpy, Money, Usd};

#[test]
fn usd_and_eur_have_distinct_codes() {
    assert_eq!(Usd::code(), "USD");
    assert_eq!(Eur::code(), "EUR");
    assert_eq!(Jpy::code(), "JPY");
}

#[test]
fn money_constructs_from_cents() {
    let m: Money<Usd> = Money::from_cents(1234);
    assert_eq!(m.cents(), 1234);
}

#[test]
fn money_negative_cents_round_trip() {
    let m: Money<Eur> = Money::from_cents(-50);
    assert_eq!(m.cents(), -50);
}

#[test]
fn same_currency_addition_sums_cents() {
    let a: Money<Usd> = Money::from_cents(199);
    let b: Money<Usd> = Money::from_cents(350);
    assert_eq!((a + b).cents(), 549);
}

#[test]
fn addition_saturates_on_overflow() {
    let a: Money<Usd> = Money::from_cents(i64::MAX);
    let b: Money<Usd> = Money::from_cents(1);
    assert_eq!((a + b).cents(), i64::MAX);
}

#[test]
fn addition_saturates_on_underflow() {
    let a: Money<Usd> = Money::from_cents(i64::MIN);
    let b: Money<Usd> = Money::from_cents(-1);
    assert_eq!((a + b).cents(), i64::MIN);
}

#[test]
fn money_display_formats_with_currency_code() {
    let m: Money<Usd> = Money::from_cents(549);
    assert_eq!(m.to_string(), "5.49 USD");

    let e: Money<Eur> = Money::from_cents(1000);
    assert_eq!(e.to_string(), "10.00 EUR");
}

#[test]
fn money_display_handles_negative_fraction() {
    let m: Money<Usd> = Money::from_cents(-149);
    // -1 dollars and 49 cents-of-magnitude.
    assert_eq!(m.to_string(), "-1.49 USD");
}

#[test]
fn money_equality_respects_currency_tag() {
    let a: Money<Usd> = Money::from_cents(100);
    let b: Money<Usd> = Money::from_cents(100);
    assert_eq!(a, b);
    let c: Money<Usd> = Money::from_cents(101);
    assert_ne!(a, c);
}

#[test]
fn run_returns_success_marker() {
    let line = run();
    assert!(line.contains("Money<C> + Money<C>"));
    assert!(line.contains("USD=5.49 USD"));
    assert!(line.contains("JPY=3.50 JPY"));
    assert!(line.contains("OK"));
}

#[test]
fn money_run_returns_the_whole_marker_line() {
    assert_eq!(
        run(),
        "contract: Money<C> + Money<C> is currency-safe (USD=5.49 USD, JPY=3.50 JPY) \u{2014} OK"
    );
}

#[test]
fn addition_is_commutative_on_values() {
    let a: Money<Jpy> = Money::from_cents(i64::MAX - 5);
    let b: Money<Jpy> = Money::from_cents(17);
    assert_eq!((a + b).cents(), (b + a).cents());
    assert_eq!((a + b).cents(), i64::MAX);
    let c: Money<Jpy> = Money::from_cents(-40);
    assert_eq!((b + c).cents(), -23);
    assert_eq!((c + b).cents(), -23);
}

#[test]
fn display_of_small_negative_amount_keeps_only_magnitude() {
    // The whole part of -49 cents truncates to 0, which carries no sign.
    let m: Money<Usd> = Money::from_cents(-49);
    assert_eq!(m.to_string(), "0.49 USD");
    let z: Money<Eur> = Money::from_cents(0);
    assert_eq!(z.to_string(), "0.00 EUR");
    let p: Money<Jpy> = Money::from_cents(7);
    assert_eq!(p.to_string(), "0.07 JPY");
}

#[test]
fn display_of_extreme_amounts() {
    let lo: Money<Usd> = Money::from_cents(i64::MIN);
    assert_eq!(lo.to_string(), "-92233720368547758.08 USD");
    let hi: Money<Usd> = Money::from_cents(i64::MAX);
    assert_eq!(hi.to_string(), "92233720368547758.07 USD");
}

#[test]
fn clone_keeps_the_amount() {
    let a: Money<Eur> = Money::from_cents(321);
    #[allow(clippy::clone_on_copy)]
    let b = a.clone();
    assert_eq!(a, b);
}
