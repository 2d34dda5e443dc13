//! What texts and dates mean.

use vstd::prelude::*;

use super::listing::at_least;
use super::text::{decimal_of, digit_of, digit_value, hex_of, number_in, DIGITS};
use super::time::{days_to_month, days_to_year, month_length, Date};

verus! {

/// The digits are 0 to 9 and a to f, and each has its value.
pub proof fn law_a_digit_has_its_value(n: int)
    requires
        0 <= n < 16,
    ensures
        digit_value(digit_of(n)) == Some(n as u8),
        n < 10 ==> digit_of(n) as int == 48 + n,
        n >= 10 ==> digit_of(n) as int == 87 + n,
        digit_value('A') == Some(10u8),
        digit_value('F') == Some(15u8),
        digit_value('g') is None,
        digit_value('-') is None,
{
    reveal_strlit("0123456789abcdef");
    assert(DIGITS@.len() == 16);
}

/// A number is read back from its decimal digits.
pub proof fn law_a_decimal_is_read_back(n: u32)
    ensures
        number_in(decimal_of(n as nat), 10) == Some(n),
        decimal_of(n as nat).len() > 0,
    decreases n,
{
    if n < 10 {
        law_a_digit_has_its_value(n as int);
        let s = seq![digit_of(n as int)];
        assert(s.drop_last() =~= Seq::empty());
        assert(number_in(s.drop_last(), 10) == Some(0u32));
    } else {
        law_a_decimal_is_read_back(n / 10);
        law_a_digit_has_its_value((n % 10) as int);
        let head = decimal_of((n / 10) as nat);
        let s = head + seq![digit_of((n % 10) as int)];
        assert(s.drop_last() =~= head);
    }
}

/// Hexadecimal digits are as many as asked for, and the last is that of the lowest four
/// bits.
pub proof fn law_hexadecimal_digits(n: nat, width: nat)
    ensures
        hex_of(n, width).len() == width,
        width > 0 ==> hex_of(n, width).last() == digit_of((n % 16) as int) && hex_of(
            n,
            width,
        ).drop_last() == hex_of(n / 16, (width - 1) as nat),
    decreases width,
{
    if width > 0 {
        law_hexadecimal_digits(n / 16, (width - 1) as nat);
        assert(hex_of(n, width).drop_last() =~= hex_of(n / 16, (width - 1) as nat));
    }
}

/// Days are counted on: the next day of a month, the first of the next month behind the
/// last of a month, and the first of January behind the last of December.
pub proof fn law_days_follow_each_other(d: Date, next: Date)
    requires
        d.wf(),
        next.wf(),
        d.year < u64::MAX,
    ensures
        next.year == d.year && next.month == d.month && next.day == d.day + 1 ==> next.number()
            == d.number() + 1,
        next.year == d.year && next.month == d.month + 1 && next.day == 1 && d.day == month_length(
            d.year as int,
            d.month as int,
        ) ==> next.number() == d.number() + 1,
        next.year == d.year + 1 && next.month == 1 && next.day == 1 && d.month == 12 && d.day == 31
            ==> next.number() == d.number() + 1,
{
    reveal_with_fuel(days_to_month, 14);
}

/// The first day is the first of 1970, and the months are as long as they are.
pub proof fn law_the_calendar(year: int)
    ensures
        days_to_year(1970) == 0,
        days_to_month(year, 1) == 0,
        month_length(year, 1) == 31,
        month_length(year, 4) == 30,
        month_length(year, 7) == 31,
        month_length(year, 8) == 31,
        month_length(year, 9) == 30,
        month_length(year, 12) == 31,
        month_length(year, 2) == if year % 4 == 0 && (year % 100 != 0 || year % 400 == 0) {
            29int
        } else {
            28int
        },
        year >= 1970 ==> days_to_year(year + 1) == days_to_year(year) + 337 + month_length(year, 2),
{
}

/// What is kept of a list is what is large enough, in its order.
pub proof fn law_what_is_kept_is_large_enough(s: Seq<u32>, least: u32, x: u32)
    ensures
        at_least(s, least).contains(x) <==> s.contains(x) && x >= least,
        at_least(s, least).len() <= s.len(),
    decreases s.len(),
{
    if s.len() > 0 {
        let t = s.drop_last();
        law_what_is_kept_is_large_enough(t, least, x);
        assert(s =~= t.push(s.last()));
        assert(s.contains(x) <==> t.contains(x) || x == s.last()) by {
            if t.contains(x) {
                let i = choose|i: int| 0 <= i < t.len() && t[i] == x;
                assert(s[i] == x);
            }
            if x == s.last() {
                assert(s[s.len() - 1] == x);
            }
        }
        if s.last() >= least {
            let u = at_least(t, least);
            assert(u.push(s.last()).contains(x) <==> u.contains(x) || x == s.last()) by {
                if u.contains(x) {
                    let i = choose|i: int| 0 <= i < u.len() && u[i] == x;
                    assert(u.push(s.last())[i] == x);
                }
                if x == s.last() {
                    assert(u.push(s.last())[u.len() as int] == x);
                }
            }
        }
    }
}

} // verus!
