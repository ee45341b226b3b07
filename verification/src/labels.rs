//! Display labels for sub-ranges: `"{start} - {end} ({days} days)"`, built
//! from verified decimal rendering and the calendar text of the two dates.

use vstd::prelude::*;
use vstd::string::StringExecFns;

use crate::dates::{date_text, render_date, DAY_MAX, DAY_MIN};

verus! {

/// The decimal digit character for one digit value.
pub open spec fn dec_digit(d: int) -> char {
    if d == 0 {
        '0'
    } else if d == 1 {
        '1'
    } else if d == 2 {
        '2'
    } else if d == 3 {
        '3'
    } else if d == 4 {
        '4'
    } else if d == 5 {
        '5'
    } else if d == 6 {
        '6'
    } else if d == 7 {
        '7'
    } else if d == 8 {
        '8'
    } else {
        '9'
    }
}

/// The decimal text of a non-negative number, most significant digit first,
/// without leading zeroes (a single `'0'` for zero).
pub open spec fn dec_str(n: nat) -> Seq<char>
    decreases n,
{
    if n < 10 {
        seq![dec_digit(n as int)]
    } else {
        dec_str(n / 10).push(dec_digit((n % 10) as int))
    }
}

/// The label text of a sub-range: start date, end date and the day count
/// between them.
pub open spec fn label_of(start_day: int, end_day: int, days: nat) -> Seq<char> {
    date_text(start_day) + " - "@ + date_text(end_day) + " ("@ + dec_str(days) + " days)"@
}

fn digit_str(d: u64) -> (r: &'static str)
    requires
        d < 10,
    ensures
        r@ == seq![dec_digit(d as int)],
{
    if d == 0 {
        proof {
            reveal_strlit("0");
            assert("0"@ =~= seq![dec_digit(0)]);
        }
        "0"
    } else if d == 1 {
        proof {
            reveal_strlit("1");
            assert("1"@ =~= seq![dec_digit(1)]);
        }
        "1"
    } else if d == 2 {
        proof {
            reveal_strlit("2");
            assert("2"@ =~= seq![dec_digit(2)]);
        }
        "2"
    } else if d == 3 {
        proof {
            reveal_strlit("3");
            assert("3"@ =~= seq![dec_digit(3)]);
        }
        "3"
    } else if d == 4 {
        proof {
            reveal_strlit("4");
            assert("4"@ =~= seq![dec_digit(4)]);
        }
        "4"
    } else if d == 5 {
        proof {
            reveal_strlit("5");
            assert("5"@ =~= seq![dec_digit(5)]);
        }
        "5"
    } else if d == 6 {
        proof {
            reveal_strlit("6");
            assert("6"@ =~= seq![dec_digit(6)]);
        }
        "6"
    } else if d == 7 {
        proof {
            reveal_strlit("7");
            assert("7"@ =~= seq![dec_digit(7)]);
        }
        "7"
    } else if d == 8 {
        proof {
            reveal_strlit("8");
            assert("8"@ =~= seq![dec_digit(8)]);
        }
        "8"
    } else {
        proof {
            reveal_strlit("9");
            assert("9"@ =~= seq![dec_digit(9)]);
        }
        "9"
    }
}

/// The decimal text of `n`.
pub fn u64_to_dec(n: u64) -> (r: String)
    ensures
        r@ == dec_str(n as nat),
    decreases n,
{
    if n < 10 {
        String::from_str(digit_str(n))
    } else {
        let mut s = u64_to_dec(n / 10);
        s.append(digit_str(n % 10));
        proof {
            assert(s@ =~= dec_str(n as nat));
        }
        s
    }
}

/// The label of the sub-range from `start_day` to `end_day` spanning `days`
/// days.
pub(crate) fn render_label(start_day: i64, end_day: i64, days: u64) -> (r: String)
    requires
        DAY_MIN <= start_day <= DAY_MAX,
        DAY_MIN <= end_day <= DAY_MAX,
    ensures
        r@ == label_of(start_day as int, end_day as int, days as nat),
{
    let mut s = render_date(start_day);
    s.append(" - ");
    let end_text = render_date(end_day);
    s.append(end_text.as_str());
    s.append(" (");
    let day_text = u64_to_dec(days);
    s.append(day_text.as_str());
    s.append(" days)");
    proof {
        assert(s@ =~= label_of(start_day as int, end_day as int, days as nat));
    }
    s
}

} // verus!
