//! A total `i32` division kernel, and the command-line pipeline around it:
//! two decimal arguments are parsed and divided, and every way that can go
//! wrong is a value of [`DivOutcome`].

use vstd::prelude::*;
use crate::decimal::{decimal_value, int_decimal, nat_decimal, law_nat_decimal};

verus! {

/// Rust's truncating quotient of `a` by `b` (rounds toward zero), for `b != 0`.
pub open spec fn trunc_div(a: int, b: int) -> int {
    let q = abs(a) / abs(b);
    if (a < 0) != (b < 0) { -q } else { q }
}

/// Absolute value of a mathematical integer.
pub open spec fn abs(x: int) -> int {
    if x < 0 { -x } else { x }
}

/// What `safe_div(a, b)` returns: `None` exactly on the two inputs where `a / b`
/// would panic, the truncating quotient everywhere else.
pub open spec fn safe_div_spec(a: i32, b: i32) -> Option<i32> {
    if b == 0 || (a == i32::MIN && b == -1) {
        None
    } else {
        Some(trunc_div(a as int, b as int) as i32)
    }
}

/// Divide `a` by `b`, returning `None` for the two `i32` overflow cases
/// (`b == 0` and `(i32::MIN, -1)`). All other inputs return `Some(a / b)`.
/// Never panics.
#[verifier::allow_in_spec]
pub fn safe_div(a: i32, b: i32) -> Option<i32>
    returns
        safe_div_spec(a, b),
{
    let r = a.checked_div(b);
    proof {
        if b != 0 {
            let x = a as int;
            let d = b as int;
            lemma_quotient_bounded(abs(x), abs(d));
            assert(x * -1 == abs(x) || x >= 0);
            assert(d * -1 == abs(d) || d > 0);
            if x == 0 {
                assert(trunc_div(x, d) == 0);
            }
            if a == i32::MIN && b == -1 {
                assert(trunc_div(x, d) == 0x8000_0000);
            }
        }
    }
    r
}

/// Dividing a non-negative number by a positive one never makes it larger.
proof fn lemma_quotient_bounded(x: int, d: int)
    requires
        x >= 0,
        d >= 1,
    ensures
        0 <= x / d <= x,
        d == 1 ==> x / d == x,
        d >= 2 && x >= 1 ==> x / d < x,
{
    assert(0 <= x / d <= x) by (nonlinear_arith)
        requires
            x >= 0,
            d >= 1,
    ;
    assert(d >= 2 && x >= 1 ==> x / d < x) by (nonlinear_arith)
        requires
            x >= 0,
            d >= 1,
    ;
}

/// Round trip: whenever `q * b` is an `i32` and `b != 0`, dividing it by `b`
/// gives back `q`.
pub proof fn law_div_round_trip(q: i32, b: i32)
    requires
        b != 0,
        i32::MIN <= q * b <= i32::MAX,
    ensures
        safe_div((q * b) as i32, b) == Some(q),
{
    let x = q as int;
    let d = b as int;
    assert(abs(x * d) == abs(x) * abs(d)) by (nonlinear_arith);
    assert((abs(x) * abs(d)) / abs(d) == abs(x)) by (nonlinear_arith)
        requires
            abs(d) >= 1,
    ;
    assert(x * d == 0 <==> x == 0) by (nonlinear_arith)
        requires
            d != 0,
    ;
    assert((x * d < 0) == ((x < 0) != (d < 0)) || x == 0) by (nonlinear_arith)
        requires
            d != 0,
    ;
    assert(d == -1 ==> x * d == -x) by (nonlinear_arith);
}

/// Division with remainder: `safe_div(a, b)` is `None` exactly when `b == 0`
/// or `(a, b) == (i32::MIN, -1)`; otherwise it is the quotient `q` whose
/// remainder `a - q * b` is smaller than `b` in magnitude and is zero or has
/// the sign of `a` (the quotient is truncated toward zero).
pub proof fn law_div_remainder(a: i32, b: i32)
    ensures
        (b == 0 || (a == i32::MIN && b == -1)) <==> safe_div(a, b) is None,
        safe_div(a, b) matches Some(q) ==> {
            let r = a - q * b;
            &&& abs(r) < abs(b as int)
            &&& (r == 0 || ((r < 0) == (a < 0)))
        },
{
    if b != 0 && !(a == i32::MIN && b == -1) {
        let x = a as int;
        let d = b as int;
        let m = abs(x);
        let n = abs(d);
        lemma_quotient_bounded(m, n);
        let q0 = m / n;
        let r0 = m % n;
        assert(m == q0 * n + r0 && 0 <= r0 < n) by (nonlinear_arith)
            requires
                n >= 1,
                q0 == m / n,
                r0 == m % n,
        ;
        let t = trunc_div(x, d);
        assert(i32::MIN <= t <= i32::MAX);
        let q = safe_div(a, b)->0;
        assert(q as int == t);
        if x >= 0 && d > 0 {
            assert(x - t * d == r0);
        } else if x >= 0 {
            assert(t == -q0);
            assert(x - t * d == r0) by (nonlinear_arith)
                requires
                    t == -q0,
                    d == -n,
                    x == m,
                    m == q0 * n + r0,
            ;
        } else if d > 0 {
            assert(t == -q0);
            assert(x - t * d == -r0) by (nonlinear_arith)
                requires
                    t == -q0,
                    d == n,
                    x == -m,
                    m == q0 * n + r0,
            ;
        } else {
            assert(t == q0);
            assert(x - t * d == -r0) by (nonlinear_arith)
                requires
                    t == q0,
                    d == -n,
                    x == -m,
                    m == q0 * n + r0,
            ;
        }
    }
}

/// Why a string is not the decimal form of an `i32`; the same four reasons,
/// checked in the same order, as the standard library's integer parser gives.
#[derive(Debug, Clone, Copy, PartialEq, Eq)]
pub enum IntErrorKind {
    /// The string is empty.
    Empty,
    /// A character is not a decimal digit (or a sign stands alone).
    InvalidDigit,
    /// The value is above `i32::MAX`.
    PosOverflow,
    /// The value is below `i32::MIN`.
    NegOverflow,
}

/// The message that describes each reason.
pub open spec fn int_error_message(kind: IntErrorKind) -> Seq<char> {
    match kind {
        IntErrorKind::Empty => "cannot parse integer from empty string"@,
        IntErrorKind::InvalidDigit => "invalid digit found in string"@,
        IntErrorKind::PosOverflow => "number too large to fit in target type"@,
        IntErrorKind::NegOverflow => "number too small to fit in target type"@,
    }
}

impl IntErrorKind {
    /// The message that describes this reason.
    pub fn description(&self) -> (msg: &'static str)
        ensures
            msg@ == int_error_message(*self),
    {
        match self {
            IntErrorKind::Empty => "cannot parse integer from empty string",
            IntErrorKind::InvalidDigit => "invalid digit found in string",
            IntErrorKind::PosOverflow => "number too large to fit in target type",
            IntErrorKind::NegOverflow => "number too small to fit in target type",
        }
    }
}

/// Whether `c` is one of the ASCII digits `0`..`9`.
pub open spec fn is_digit(c: char) -> bool {
    '0' <= c <= '9'
}

/// The value of the digits read left to right, each step multiplying by ten
/// and then adding (or, for a negative number, subtracting) the next digit;
/// the first character that is no digit, or the first step that leaves the
/// `i32` range, decides the error.
pub open spec fn accumulate(digits: Seq<char>, positive: bool) -> Result<int, IntErrorKind>
    decreases digits.len(),
{
    if digits.len() == 0 {
        Ok(0)
    } else {
        match accumulate(digits.drop_last(), positive) {
            Err(e) => Err(e),
            Ok(v) => {
                let c = digits.last();
                if !is_digit(c) {
                    Err(IntErrorKind::InvalidDigit)
                } else if positive {
                    let n = v * 10 + (c as int - '0' as int);
                    if n > i32::MAX {
                        Err(IntErrorKind::PosOverflow)
                    } else {
                        Ok(n)
                    }
                } else {
                    let n = v * 10 - (c as int - '0' as int);
                    if n < i32::MIN {
                        Err(IntErrorKind::NegOverflow)
                    } else {
                        Ok(n)
                    }
                }
            },
        }
    }
}

/// What parsing `s` as a decimal `i32` gives: an optional `+` or `-` sign
/// followed by digits only; no white space anywhere.
pub open spec fn parse_i32_spec(s: Seq<char>) -> Result<i32, IntErrorKind> {
    if s.len() == 0 {
        Err(IntErrorKind::Empty)
    } else if (s[0] == '+' || s[0] == '-') && s.len() == 1 {
        Err(IntErrorKind::InvalidDigit)
    } else {
        let positive = s[0] != '-';
        let digits = if s[0] == '+' || s[0] == '-' { s.drop_first() } else { s };
        match accumulate(digits, positive) {
            Ok(v) => Ok(v as i32),
            Err(e) => Err(e),
        }
    }
}

/// A successful accumulation stays inside the `i32` range, on the side of its sign.
proof fn lemma_accumulate_range(digits: Seq<char>, positive: bool)
    ensures
        accumulate(digits, positive) matches Ok(v) ==> {
            &&& positive ==> 0 <= v <= i32::MAX
            &&& !positive ==> i32::MIN <= v <= 0
        },
    decreases digits.len(),
{
    if digits.len() > 0 {
        lemma_accumulate_range(digits.drop_last(), positive);
    }
}

/// Once a prefix of the digits fails, the whole fails with the same error.
proof fn lemma_accumulate_error_sticks(digits: Seq<char>, k: int, positive: bool)
    requires
        0 <= k <= digits.len(),
        accumulate(digits.take(k), positive) is Err,
    ensures
        accumulate(digits, positive) == accumulate(digits.take(k), positive),
    decreases digits.len() - k,
{
    if k < digits.len() {
        assert(digits.take(k + 1).drop_last() =~= digits.take(k));
        lemma_accumulate_error_sticks(digits, k + 1, positive);
    } else {
        assert(digits.take(k) =~= digits);
    }
}

/// Every character of `s` is a decimal digit.
pub open spec fn all_digits(s: Seq<char>) -> bool {
    forall|i: int| 0 <= i < s.len() ==> is_digit(#[trigger] s[i])
}

/// On digits only, the scan gives the value the digits stand for (negated for
/// a negative number), or the overflow on the side of the sign when that
/// value is not an `i32`.
proof fn lemma_accumulate_digits(digits: Seq<char>, positive: bool)
    requires
        all_digits(digits),
    ensures
        decimal_value(digits) >= 0,
        accumulate(digits, positive) == if positive {
            if decimal_value(digits) <= i32::MAX {
                Ok::<int, IntErrorKind>(decimal_value(digits))
            } else {
                Err(IntErrorKind::PosOverflow)
            }
        } else {
            if -decimal_value(digits) >= i32::MIN {
                Ok::<int, IntErrorKind>(-decimal_value(digits))
            } else {
                Err(IntErrorKind::NegOverflow)
            }
        },
    decreases digits.len(),
{
    if digits.len() > 0 {
        let init = digits.drop_last();
        assert(all_digits(init)) by {
            assert forall|i: int| 0 <= i < init.len() implies is_digit(#[trigger] init[i]) by {
                assert(init[i] == digits[i]);
            }
        }
        lemma_accumulate_digits(init, positive);
        assert(is_digit(digits[digits.len() - 1]));
    }
}

/// A non-digit anywhere in the digits makes the scan fail.
proof fn lemma_accumulate_non_digit(digits: Seq<char>, positive: bool, i: int)
    requires
        0 <= i < digits.len(),
        !is_digit(digits[i]),
    ensures
        accumulate(digits, positive) is Err,
    decreases digits.len(),
{
    if i < digits.len() - 1 {
        let init = digits.drop_last();
        assert(init[i] == digits[i]);
        lemma_accumulate_non_digit(init, positive, i);
    }
}

/// The digits that follow the optional sign of `s`.
pub open spec fn unsigned_part(s: Seq<char>) -> Seq<char> {
    if s.len() > 0 && (s[0] == '+' || s[0] == '-') { s.drop_first() } else { s }
}

/// What parsing gives, in terms of the value that the digits stand for: the
/// empty string and a lone sign are refused; a sign (or none) followed by
/// digits only gives their value, negated after `-`, or the overflow on that
/// side when it is no `i32`; any other character makes parsing fail.
pub proof fn law_parse_i32(s: Seq<char>)
    ensures
        s.len() == 0 ==> parse_i32_spec(s) == Err::<i32, IntErrorKind>(IntErrorKind::Empty),
        s.len() == 1 && (s[0] == '+' || s[0] == '-') ==> parse_i32_spec(s) == Err::<i32, IntErrorKind>(
            IntErrorKind::InvalidDigit,
        ),
        s.len() > 0 && unsigned_part(s).len() > 0 && all_digits(unsigned_part(s)) ==> {
            let v = decimal_value(unsigned_part(s));
            if s[0] == '-' {
                parse_i32_spec(s) == if -v >= i32::MIN {
                    Ok::<i32, IntErrorKind>((-v) as i32)
                } else {
                    Err(IntErrorKind::NegOverflow)
                }
            } else {
                parse_i32_spec(s) == if v <= i32::MAX {
                    Ok::<i32, IntErrorKind>(v as i32)
                } else {
                    Err(IntErrorKind::PosOverflow)
                }
            }
        },
        !all_digits(unsigned_part(s)) ==> parse_i32_spec(s) is Err,
{
    let body = unsigned_part(s);
    if s.len() > 0 {
        let positive = s[0] != '-';
        if all_digits(body) {
            lemma_accumulate_digits(body, positive);
        } else {
            let i = choose|i: int| 0 <= i < body.len() && !is_digit(#[trigger] body[i]);
            lemma_accumulate_non_digit(body, positive, i);
        }
    }
}

/// Parsing the decimal text of any `i32` gives it back.
pub proof fn law_parse_decimal_round_trip(v: i32)
    ensures
        parse_i32_spec(int_decimal(v as int)) == Ok::<i32, IntErrorKind>(v),
{
    let s = int_decimal(v as int);
    if v >= 0 {
        law_nat_decimal(v as nat);
        assert(unsigned_part(s) == s);
        assert(all_digits(s));
    } else {
        law_nat_decimal((-v) as nat);
        assert(s[0] == '-');
        assert(unsigned_part(s) =~= nat_decimal((-v) as nat));
        assert(all_digits(unsigned_part(s)));
    }
    law_parse_i32(s);
}

/// Parse `s` as a decimal `i32`: an optional sign, then digits only.
pub fn parse_i32(s: &str) -> (r: Result<i32, IntErrorKind>)
    ensures
        r == parse_i32_spec(s@),
{
    let len = s.unicode_len();
    if len == 0 {
        return Err(IntErrorKind::Empty);
    }
    let first = s.get_char(0);
    if (first == '+' || first == '-') && len == 1 {
        return Err(IntErrorKind::InvalidDigit);
    }
    let positive = first != '-';
    let start: usize = if first == '+' || first == '-' { 1 } else { 0 };
    let ghost digits = s@.subrange(start as int, len as int);
    assert(digits =~= if first == '+' || first == '-' { s@.drop_first() } else { s@ });
    let ghost whole = match accumulate(digits, positive) {
        Ok(v) => Ok::<i32, IntErrorKind>(v as i32),
        Err(e) => Err(e),
    };
    assert(parse_i32_spec(s@) == whole);
    let mut acc: i32 = 0;
    let mut i: usize = start;
    while i < len
        invariant
            start <= i <= len,
            len == s@.len(),
            digits == s@.subrange(start as int, len as int),
            accumulate(digits.take(i - start), positive) == Ok::<int, IntErrorKind>(acc as int),
            parse_i32_spec(s@) == whole,
            whole == match accumulate(digits, positive) {
                Ok(v) => Ok::<i32, IntErrorKind>(v as i32),
                Err(e) => Err(e),
            },
        decreases len - i,
    {
        let c = s.get_char(i);
        let ghost k = (i - start) as int;
        assert(digits.take(k + 1).drop_last() =~= digits.take(k));
        assert(digits.take(k + 1).last() == c);
        if !('0' <= c && c <= '9') {
            proof {
                lemma_accumulate_error_sticks(digits, k + 1, positive);
            }
            return Err(IntErrorKind::InvalidDigit);
        }
        let d: i64 = (c as u32 - '0' as u32) as i64;
        let n: i64 = if positive { acc as i64 * 10 + d } else { acc as i64 * 10 - d };
        proof {
            lemma_accumulate_range(digits.take(k + 1), positive);
        }
        if positive && n > i32::MAX as i64 {
            proof {
                lemma_accumulate_error_sticks(digits, k + 1, positive);
            }
            return Err(IntErrorKind::PosOverflow);
        }
        if !positive && n < i32::MIN as i64 {
            proof {
                lemma_accumulate_error_sticks(digits, k + 1, positive);
            }
            return Err(IntErrorKind::NegOverflow);
        }
        acc = n as i32;
        i = i + 1;
    }
    assert(digits.take(len - start) =~= digits);
    Ok(acc)
}

/// Outcome of [`run`], one variant for every way the pipeline can end.
#[derive(Debug, PartialEq, Eq)]
pub enum DivOutcome {
    /// Parsed two `i32`s and got a finite quotient.
    Success(i32),
    /// First arg failed to parse.
    BadA(String),
    /// Second arg failed to parse.
    BadB(String),
    /// Missing one or both args.
    Missing,
    /// `b == 0`.
    DivByZero,
    /// `(i32::MIN, -1)`.
    Overflow,
}

/// A [`DivOutcome`] with its message taken by value.
pub enum DivOutcomeView {
    Success(i32),
    BadA(Seq<char>),
    BadB(Seq<char>),
    Missing,
    DivByZero,
    Overflow,
}

impl View for DivOutcome {
    type V = DivOutcomeView;

    open spec fn view(&self) -> DivOutcomeView {
        match self {
            DivOutcome::Success(q) => DivOutcomeView::Success(*q),
            DivOutcome::BadA(m) => DivOutcomeView::BadA(m@),
            DivOutcome::BadB(m) => DivOutcomeView::BadB(m@),
            DivOutcome::Missing => DivOutcomeView::Missing,
            DivOutcome::DivByZero => DivOutcomeView::DivByZero,
            DivOutcome::Overflow => DivOutcomeView::Overflow,
        }
    }
}

/// The message for an argument `raw` that did not parse.
pub open spec fn bad_arg_message(raw: Seq<char>, kind: IntErrorKind) -> Seq<char> {
    "'"@ + raw + "' is not a valid i32: "@ + int_error_message(kind)
}

/// The message for a bad argument quotes the argument whole and unchanged,
/// then gives the reason.
pub proof fn law_bad_arg_message(raw: Seq<char>, kind: IntErrorKind)
    ensures
        bad_arg_message(raw, kind)[0] == '\'',
        bad_arg_message(raw, kind).subrange(1, 1 + raw.len() as int) == raw,
        bad_arg_message(raw, kind)[1 + raw.len() as int] == '\'',
        bad_arg_message(raw, kind).subrange(
            bad_arg_message(raw, kind).len() - int_error_message(kind).len(),
            bad_arg_message(raw, kind).len() as int,
        ) == int_error_message(kind),
{
    reveal_strlit("'");
    reveal_strlit("' is not a valid i32: ");
    let m = bad_arg_message(raw, kind);
    assert(m.subrange(1, 1 + raw.len() as int) =~= raw);
    assert(m.subrange(m.len() - int_error_message(kind).len(), m.len() as int) =~= int_error_message(kind));
}

/// What [`run`] answers for the argument vector `args` (program name first).
pub open spec fn run_spec(args: Seq<Seq<char>>) -> DivOutcomeView {
    if args.len() < 3 {
        DivOutcomeView::Missing
    } else {
        match parse_i32_spec(args[1]) {
            Err(e) => DivOutcomeView::BadA(bad_arg_message(args[1], e)),
            Ok(a) => match parse_i32_spec(args[2]) {
                Err(e) => DivOutcomeView::BadB(bad_arg_message(args[2], e)),
                Ok(b) => match safe_div_spec(a, b) {
                    Some(q) => DivOutcomeView::Success(q),
                    None => if b == 0 {
                        DivOutcomeView::DivByZero
                    } else {
                        DivOutcomeView::Overflow
                    },
                },
            },
        }
    }
}

/// The views of a sequence of strings.
pub open spec fn string_views(args: Seq<String>) -> Seq<Seq<char>> {
    args.map_values(|s: String| s@)
}

/// Build the message for an argument that did not parse.
fn bad_arg(raw: &str, kind: IntErrorKind) -> (m: String)
    ensures
        m@ == bad_arg_message(raw@, kind),
{
    let mut m = String::from_str("'");
    m.append(raw);
    m.append("' is not a valid i32: ");
    m.append(kind.description());
    m
}

/// Run the pipeline on `args` (program name first): parse the next two
/// arguments as `i32`s and divide them.
pub fn run(args: &[String]) -> (r: DivOutcome)
    ensures
        r@ == run_spec(string_views(args@)),
{
    if args.len() < 3 {
        return DivOutcome::Missing;
    }
    let raw_a = args[1].as_str();
    let raw_b = args[2].as_str();
    let a = match parse_i32(raw_a) {
        Ok(n) => n,
        Err(e) => return DivOutcome::BadA(bad_arg(raw_a, e)),
    };
    let b = match parse_i32(raw_b) {
        Ok(n) => n,
        Err(e) => return DivOutcome::BadB(bad_arg(raw_b, e)),
    };
    match safe_div(a, b) {
        Some(q) => DivOutcome::Success(q),
        None => if b == 0 {
            DivOutcome::DivByZero
        } else {
            DivOutcome::Overflow
        },
    }
}

/// What the pipeline answers, in terms of the parsed arguments: fewer than two
/// arguments are missing; an argument that does not parse is reported (the
/// first one first); two that parse to `a` and `b` give exactly the quotient
/// `safe_div(a, b)` when there is one, and otherwise tell a zero divisor from
/// the `i32::MIN / -1` overflow.
pub proof fn law_run_outcome(args: Seq<Seq<char>>)
    ensures
        (run_spec(args) is Missing) <==> args.len() < 3,
        (run_spec(args) is BadA) <==> (args.len() >= 3 && parse_i32_spec(args[1]) is Err),
        (run_spec(args) is BadB) <==> (args.len() >= 3 && parse_i32_spec(args[1]) is Ok
            && parse_i32_spec(args[2]) is Err),
        args.len() >= 3 ==> match (parse_i32_spec(args[1]), parse_i32_spec(args[2])) {
            (Ok(a), Ok(b)) => match run_spec(args) {
                DivOutcomeView::Success(v) => safe_div(a, b) == Some(v),
                DivOutcomeView::DivByZero => b == 0,
                DivOutcomeView::Overflow => b != 0 && safe_div(a, b) is None,
                _ => false,
            },
            _ => true,
        },
{
}

} // verus!
