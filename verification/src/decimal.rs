//! Decimal text of integers.

use vstd::prelude::*;

verus! {

/// The ASCII character of the decimal digit `d` (`0 <= d < 10`).
pub open spec fn digit_char(d: int) -> char {
    ('0' as int + d) as char
}

/// The shortest decimal text of a natural number, most significant digit first.
pub open spec fn nat_decimal(n: nat) -> Seq<char>
    decreases n,
{
    if n < 10 {
        seq![digit_char(n as int)]
    } else {
        nat_decimal(n / 10).push(digit_char((n % 10) as int))
    }
}

/// The decimal text of an integer: a `-` before the digits of a negative one.
pub open spec fn int_decimal(n: int) -> Seq<char> {
    if n < 0 {
        seq!['-'] + nat_decimal((-n) as nat)
    } else {
        nat_decimal(n as nat)
    }
}

/// The number that a string of decimal digits stands for.
pub open spec fn decimal_value(s: Seq<char>) -> int
    decreases s.len(),
{
    if s.len() == 0 {
        0
    } else {
        decimal_value(s.drop_last()) * 10 + (s.last() as int - '0' as int)
    }
}

/// The decimal text of `n` is made of digits only, stands for `n`, and has no
/// leading zero unless it is the single digit `0`.
pub proof fn law_nat_decimal(n: nat)
    ensures
        forall|i: int| 0 <= i < nat_decimal(n).len() ==> '0' <= #[trigger] nat_decimal(n)[i] <= '9',
        decimal_value(nat_decimal(n)) == n,
        nat_decimal(n).len() == 1 || nat_decimal(n)[0] != '0',
        nat_decimal(n).len() >= 1,
    decreases n,
{
    if n >= 10 {
        let h = (n / 10) as nat;
        law_nat_decimal(h);
        let c = digit_char((n % 10) as int);
        assert(c as int == '0' as int + n % 10);
        let s = nat_decimal(n);
        assert(s == nat_decimal(h).push(c));
        assert(s.drop_last() =~= nat_decimal(h));
        assert(s.last() == c);
        assert(n == h * 10 + n % 10);
        assert(decimal_value(s) == decimal_value(nat_decimal(h)) * 10 + (c as int - '0' as int));
        assert(s[0] == nat_decimal(h)[0]);
        if nat_decimal(h).len() == 1 {
            assert(h < 10) by {
                if h >= 10 {
                    assert(nat_decimal(h).len() == nat_decimal((h / 10) as nat).len() + 1);
                }
            };
            assert(nat_decimal(h)[0] as int == '0' as int + h);
        }
        assert forall|i: int| 0 <= i < s.len() implies '0' <= #[trigger] s[i] <= '9' by {
            if i < s.len() - 1 {
                assert(s[i] == nat_decimal(h)[i]);
            }
        };
    } else {
        let s = nat_decimal(n);
        assert(s[0] as int == '0' as int + n);
        assert(s.drop_last() =~= Seq::<char>::empty());
        assert(decimal_value(s) == decimal_value(s.drop_last()) * 10 + (s.last() as int - '0' as int));
    }
}

/// The one-character text of the decimal digit `d`.
fn digit_str(d: u64) -> (s: &'static str)
    requires
        d < 10,
    ensures
        s@ == seq![digit_char(d as int)],
{
    proof {
        reveal_strlit("0");
        reveal_strlit("1");
        reveal_strlit("2");
        reveal_strlit("3");
        reveal_strlit("4");
        reveal_strlit("5");
        reveal_strlit("6");
        reveal_strlit("7");
        reveal_strlit("8");
        reveal_strlit("9");
    }
    match d {
        0 => "0",
        1 => "1",
        2 => "2",
        3 => "3",
        4 => "4",
        5 => "5",
        6 => "6",
        7 => "7",
        8 => "8",
        _ => "9",
    }
}

/// Append the decimal text of `n` to `out`.
pub fn push_decimal(out: &mut String, n: u64)
    ensures
        final(out)@ == old(out)@ + nat_decimal(n as nat),
    decreases n,
{
    if n >= 10 {
        push_decimal(out, n / 10);
    }
    out.append(digit_str(n % 10));
    assert(n < 10 ==> n % 10 == n);
}

} // verus!
