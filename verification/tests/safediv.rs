use provable_contracts::safediv::{parse_i32, run, safe_div, DivOutcome, IntErrorKind};

fn argv(extras: &[&str]) -> Vec<String> {
    let mut v = vec!["safediv-demo".to_string()];
    v.extend(extras.iter().map(|s| (*s).to_string()));
    v
}

#[test]
fn safe_div_div_by_zero_returns_none() {
    for a in [i32::MIN, -1, 0, 1, i32::MAX] {
        assert_eq!(safe_div(a, 0), None, "safe_div({a}, 0) should be None");
    }
}

#[test]
fn safe_div_min_over_neg_one_returns_none() {
    assert_eq!(safe_div(i32::MIN, -1), None);
}

#[test]
fn safe_div_returns_some_quotient_for_safe_inputs() {
    assert_eq!(safe_div(10, 2), Some(5));
    assert_eq!(safe_div(7, 3), Some(2));
    assert_eq!(safe_div(-10, 2), Some(-5));
    assert_eq!(safe_div(0, 5), Some(0));
    assert_eq!(safe_div(i32::MAX, 1), Some(i32::MAX));
    assert_eq!(safe_div(i32::MIN, 1), Some(i32::MIN));
}

#[test]
fn run_ok_for_safe_inputs() {
    assert_eq!(run(&argv(&["10", "2"])), DivOutcome::Success(5));
    assert_eq!(run(&argv(&["-12", "4"])), DivOutcome::Success(-3));
}

#[test]
fn run_div_by_zero_outcome() {
    assert_eq!(run(&argv(&["7", "0"])), DivOutcome::DivByZero);
}

#[test]
fn run_overflow_outcome() {
    assert_eq!(
        run(&argv(&[&i32::MIN.to_string(), "-1"])),
        DivOutcome::Overflow
    );
}

#[test]
fn run_missing_args() {
    assert_eq!(run(&argv(&[])), DivOutcome::Missing);
    assert_eq!(run(&argv(&["10"])), DivOutcome::Missing);
}

#[test]
fn run_bad_a() {
    assert_eq!(
        run(&argv(&["banana", "2"])),
        DivOutcome::BadA(
            "'banana' is not a valid i32: invalid digit found in string".to_string()
        )
    );
}

#[test]
fn run_bad_b() {
    assert_eq!(
        run(&argv(&["10", "banana"])),
        DivOutcome::BadB(
            "'banana' is not a valid i32: invalid digit found in string".to_string()
        )
    );
}

#[test]
fn safe_div_truncates_toward_zero() {
    assert_eq!(safe_div(-7, 2), Some(-3));
    assert_eq!(safe_div(7, -2), Some(-3));
    assert_eq!(safe_div(-7, -2), Some(3));
    assert_eq!(safe_div(i32::MIN, 2), Some(-1073741824));
    assert_eq!(safe_div(i32::MIN, i32::MIN), Some(1));
    assert_eq!(safe_div(i32::MAX, -1), Some(-i32::MAX));
}

#[test]
fn safe_div_agrees_with_native_division_on_a_grid() {
    for a in -40..=40 {
        for b in -9..=9 {
            let expected = if b == 0 { None } else { Some(a / b) };
            assert_eq!(safe_div(a, b), expected);
        }
    }
}

#[test]
fn exact_divisions_round_trip() {
    for (q, b) in [(3, 4), (-5, 7), (123456, -17), (0, -1), (i32::MAX, -1), (-1073741824, 2)] {
        assert_eq!(safe_div(q * b, b), Some(q));
    }
}

#[test]
fn parse_accepts_signs_and_extremes() {
    assert_eq!(parse_i32("+5"), Ok(5));
    assert_eq!(parse_i32("-0"), Ok(0));
    assert_eq!(parse_i32("007"), Ok(7));
    assert_eq!(parse_i32("2147483647"), Ok(i32::MAX));
    assert_eq!(parse_i32("-2147483648"), Ok(i32::MIN));
}

#[test]
fn parse_reports_each_error_kind() {
    assert_eq!(parse_i32(""), Err(IntErrorKind::Empty));
    assert_eq!(parse_i32("+"), Err(IntErrorKind::InvalidDigit));
    assert_eq!(parse_i32("-"), Err(IntErrorKind::InvalidDigit));
    assert_eq!(parse_i32(" 5"), Err(IntErrorKind::InvalidDigit));
    assert_eq!(parse_i32("5é"), Err(IntErrorKind::InvalidDigit));
    assert_eq!(parse_i32("2147483648"), Err(IntErrorKind::PosOverflow));
    assert_eq!(parse_i32("-2147483649"), Err(IntErrorKind::NegOverflow));
    // The scan stops at the first failure, left to right.
    assert_eq!(parse_i32("99999999999x"), Err(IntErrorKind::PosOverflow));
    assert_eq!(parse_i32("9x9999999999"), Err(IntErrorKind::InvalidDigit));
}

#[test]
fn parse_agrees_with_std_on_samples() {
    for s in ["", "+", "-", "0", "-17", "+42", "12a", "a12", "2147483647", "2147483648",
              "-2147483648", "-2147483649", "99999999999x", "--1", "+-1", " 1", "1 "] {
        let ours = parse_i32(s);
        let theirs = s.parse::<i32>();
        match (ours, theirs) {
            (Ok(a), Ok(b)) => assert_eq!(a, b),
            (Err(k), Err(e)) => assert_eq!(k.description(), e.to_string()),
            (o, t) => panic!("disagree on {s:?}: {o:?} vs {t:?}"),
        }
    }
}

#[test]
fn run_reports_empty_and_overflowing_arguments() {
    assert_eq!(
        run(&argv(&["", "1"])),
        DivOutcome::BadA("'' is not a valid i32: cannot parse integer from empty string".to_string())
    );
    assert_eq!(
        run(&argv(&["1", "3000000000"])),
        DivOutcome::BadB("'3000000000' is not a valid i32: number too large to fit in target type".to_string())
    );
    assert_eq!(
        run(&argv(&["-3000000000", "1"])),
        DivOutcome::BadA("'-3000000000' is not a valid i32: number too small to fit in target type".to_string())
    );
    assert_eq!(run(&argv(&["9", "x", "extra"])),
        DivOutcome::BadB("'x' is not a valid i32: invalid digit found in string".to_string()));
    assert_eq!(run(&argv(&["9", "4", "extra"])), DivOutcome::Success(2));
}
