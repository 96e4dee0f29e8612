//! Human-readable byte sizes: the size in the largest unit that keeps the
//! number above 1024, rounded to two decimals.
use vstd::prelude::*;
use vstd::string::StringExecFns;
use crate::text::{decimal, decimal_string, digit_char, digit_str};

verus! {

pub open spec fn unit_name(k: int) -> Seq<char> {
    if k == 0 {
        "bytes"@
    } else if k == 1 {
        "KB"@
    } else if k == 2 {
        "MB"@
    } else if k == 3 {
        "GB"@
    } else if k == 4 {
        "TB"@
    } else {
        "PB"@
    }
}

/// How many times `n` is divided by 1024: as long as the quotient exceeds
/// 1024 (an `i32` never reaches the fourth step).
pub open spec fn scale(n: int) -> int {
    if n > 1073741824 {
        3
    } else if n > 1048576 {
        2
    } else if n > 1024 {
        1
    } else {
        0
    }
}

pub open spec fn pow1024(k: int) -> int {
    if k == 3 {
        1073741824
    } else if k == 2 {
        1048576
    } else if k == 1 {
        1024
    } else {
        1
    }
}

/// `n / 1024^scale(n)` in hundredths, rounded half away from zero.
pub open spec fn hundredths(n: int) -> int {
    let d = pow1024(scale(n));
    if d == 1 {
        100 * n
    } else {
        (200 * n + d) / (2 * d)
    }
}

/// The shortest decimal text of `m / 100`: no trailing zeros after the
/// point, and no point for a whole number.
pub open spec fn hundredths_text(m: int) -> Seq<char> {
    let a = if m < 0 { -m } else { m };
    let sign = if m < 0 { "-"@ } else { Seq::empty() };
    let f = a % 100;
    let frac = if f == 0 {
        Seq::empty()
    } else if f % 10 == 0 {
        seq!['.', digit_char(f / 10)]
    } else {
        seq!['.', digit_char(f / 10), digit_char(f % 10)]
    };
    sign + decimal((a / 100) as nat) + frac
}

pub open spec fn display_size(n: int) -> Seq<char> {
    hundredths_text(hundredths(n)) + " "@ + unit_name(scale(n))
}

/// The size in bytes as a number and a unit, e.g. `2.5 KB`.
pub fn get_display_size(size: i32) -> (r: String)
    ensures
        r@ == display_size(size as int),
{
    let n = size as i64;
    let (k, d): (usize, i64) = if n > 1073741824 {
        (3, 1073741824)
    } else if n > 1048576 {
        (2, 1048576)
    } else if n > 1024 {
        (1, 1024)
    } else {
        (0, 1)
    };
    let m: i64 = if d == 1 {
        100 * n
    } else {
        (200 * n + d) / (2 * d)
    };
    assert(m == hundredths(n as int));
    let a: u64 = if m < 0 {
        (-m) as u64
    } else {
        m as u64
    };
    let mut text = if m < 0 {
        String::from_str("-")
    } else {
        String::new()
    };
    text.append(decimal_string(a / 100).as_str());
    let f = a % 100;
    if f != 0 {
        text.append(".");
        text.append(digit_str(f / 10));
        if f % 10 != 0 {
            text.append(digit_str(f % 10));
        }
    }
    text.append(" ");
    let unit = match k {
        0 => "bytes",
        1 => "KB",
        2 => "MB",
        _ => "GB",
    };
    text.append(unit);
    proof {
        reveal_strlit(".");
        reveal_strlit("-");
    }
    assert(text@ =~= display_size(size as int));
    text
}

} // verus!
