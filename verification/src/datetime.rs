use vstd::prelude::*;

use crate::value::DateTimeValue;

verus! {

/// The decimal digit character for `d`, which must be below ten.
pub open spec fn digit_char(d: nat) -> char {
    if d == 0 {
        '0'
    } else if d == 1 {
        '1'
    } else if d == 2 {
        '2'
    } else if d == 3 {
        '3'
    } else if d == 4 {
        '4'
    } else if d == 5 {
        '5'
    } else if d == 6 {
        '6'
    } else if d == 7 {
        '7'
    } else if d == 8 {
        '8'
    } else {
        '9'
    }
}

/// The decimal digits of `n`, zero-padded on the left to at least `width`
/// characters.
pub open spec fn dec_digits(n: nat, width: nat) -> Seq<char>
    decreases n, width,
{
    if n < 10 && width <= 1 {
        seq![digit_char(n)]
    } else {
        dec_digits(n / 10, if width == 0 {
            0nat
        } else {
            (width - 1) as nat
        }).push(digit_char(n % 10))
    }
}

/// The canonical timestamp text: `YYYYMMDDTHH:MM:SS`, every field zero-padded,
/// no time zone, no fractional seconds.
pub open spec fn spec_format_datetime(dt: DateTimeValue) -> Seq<char> {
    dec_digits(dt.year as nat, 4) + dec_digits(dt.month as nat, 2) + dec_digits(
        dt.day as nat,
        2,
    ) + seq!['T'] + dec_digits(dt.hour as nat, 2) + seq![':'] + dec_digits(dt.minute as nat, 2)
        + seq![':'] + dec_digits(dt.second as nat, 2)
}

fn digit_str(d: u32) -> (s: &'static str)
    requires
        d < 10,
    ensures
        s@ == seq![digit_char(d as nat)],
{
    proof {
        reveal_strlit("0");
        reveal_strlit("1");
        reveal_strlit("2");
        reveal_strlit("3");
        reveal_strlit("4");
        reveal_strlit("5");
        reveal_strlit("6");
        reveal_strlit("7");
        reveal_strlit("8");
        reveal_strlit("9");
    }
    if d == 0 {
        "0"
    } else if d == 1 {
        "1"
    } else if d == 2 {
        "2"
    } else if d == 3 {
        "3"
    } else if d == 4 {
        "4"
    } else if d == 5 {
        "5"
    } else if d == 6 {
        "6"
    } else if d == 7 {
        "7"
    } else if d == 8 {
        "8"
    } else {
        "9"
    }
}

/// The decimal digits of `n`, zero-padded on the left to at least `width`
/// characters.
pub fn format_padded(n: u32, width: u32) -> (s: String)
    ensures
        s@ == dec_digits(n as nat, width as nat),
    decreases n, width,
{
    if n < 10 && width <= 1 {
        String::from_str(digit_str(n))
    } else {
        let rest = format_padded(n / 10, if width == 0 {
            0
        } else {
            width - 1
        });
        let s = rest.concat(digit_str(n % 10));
        proof {
            assert(s@ =~= dec_digits(n as nat, width as nat));
        }
        s
    }
}

/// Render a timestamp in the canonical `YYYYMMDDTHH:MM:SS` form.
pub fn format_datetime(dt: &DateTimeValue) -> (s: String)
    ensures
        s@ == spec_format_datetime(*dt),
{
    let mut s = format_padded(dt.year, 4);
    s.append(format_padded(dt.month, 2).as_str());
    s.append(format_padded(dt.day, 2).as_str());
    s.append("T");
    s.append(format_padded(dt.hour, 2).as_str());
    s.append(":");
    s.append(format_padded(dt.minute, 2).as_str());
    s.append(":");
    s.append(format_padded(dt.second, 2).as_str());
    proof {
        reveal_strlit("T");
        reveal_strlit(":");
        assert("T"@ =~= seq!['T']);
        assert(":"@ =~= seq![':']);
        assert(s@ =~= spec_format_datetime(*dt));
    }
    s
}

} // verus!
