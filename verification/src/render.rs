//! Fixed-width table rendering: decimal numbers, space padding, header and
//! data lines. Every line is returned as a `String`; nothing here prints.

use vstd::prelude::*;
use vstd::string::*;
use crate::duration::{years_of, days_of, hours_of, minutes_of, seconds_of};

verus! {

/// Width of the name column.
pub const NAME_WIDTH: usize = 50;
/// Width of the years column.
pub const YEARS_WIDTH: usize = 3;
/// Width of the days column.
pub const DAYS_WIDTH: usize = 4;
/// Width of the hours, minutes and seconds columns.
pub const SMALL_WIDTH: usize = 3;

/// The decimal digit character for `d` (0 to 9).
pub open spec fn digit_char(d: int) -> char {
    if d == 0 {
        '0'
    } else if d == 1 {
        '1'
    } else if d == 2 {
        '2'
    } else if d == 3 {
        '3'
    } else if d == 4 {
        '4'
    } else if d == 5 {
        '5'
    } else if d == 6 {
        '6'
    } else if d == 7 {
        '7'
    } else if d == 8 {
        '8'
    } else {
        '9'
    }
}

/// The decimal representation of `n`, most significant digit first, with no
/// sign and no leading zeros (zero itself is the single digit `0`).
pub open spec fn dec_rep(n: int) -> Seq<char>
    decreases n,
{
    if n < 10 {
        seq![digit_char(n)]
    } else {
        dec_rep(n / 10).push(digit_char(n % 10))
    }
}

/// `n` space characters.
pub open spec fn pad_chars(n: nat) -> Seq<char> {
    Seq::new(n, |i: int| ' ')
}

/// `s` left-aligned in a field `w` wide: `s` itself if it already fills the
/// field, else `s` followed by spaces up to width `w`. Never truncates.
pub open spec fn padded(s: Seq<char>, w: nat) -> Seq<char> {
    if s.len() >= w {
        s
    } else {
        s + pad_chars((w - s.len()) as nat)
    }
}

/// One data row: the name left-aligned in the name column, then the five
/// age components of `elapsed`, each left-aligned in its own column.
pub open spec fn age_row(name: Seq<char>, elapsed: int) -> Seq<char> {
    padded(name, NAME_WIDTH as nat) + padded(dec_rep(years_of(elapsed)), YEARS_WIDTH as nat)
        + padded(dec_rep(days_of(elapsed)), DAYS_WIDTH as nat)
        + padded(dec_rep(hours_of(elapsed)), SMALL_WIDTH as nat)
        + padded(dec_rep(minutes_of(elapsed)), SMALL_WIDTH as nat)
        + padded(dec_rep(seconds_of(elapsed)), SMALL_WIDTH as nat)
}

/// The first header line: the mode label left-aligned in the name column,
/// then the age caption.
pub open spec fn label_line(label: Seq<char>) -> Seq<char> {
    padded(label, NAME_WIDTH as nat) + "AGE:"@
}

/// The second header line: the target path left-aligned in the name column,
/// then the five unit letters in their columns.
pub open spec fn units_line(path: Seq<char>) -> Seq<char> {
    padded(path, NAME_WIDTH as nat) + padded("Y"@, YEARS_WIDTH as nat)
        + padded("D"@, DAYS_WIDTH as nat) + padded("H"@, SMALL_WIDTH as nat)
        + padded("M"@, SMALL_WIDTH as nat) + padded("S"@, SMALL_WIDTH as nat)
}

/// The separator line under the headers.
pub open spec fn separator_line() -> Seq<char> {
    "-----------------------------------------------------------------"@
}

/// The decimal digit string for `d` (0 to 9).
fn digit_str(d: u64) -> (r: &'static str)
    requires
        d < 10,
    ensures
        r@ == seq![digit_char(d as int)],
{
    if d == 0 {
        proof {
            reveal_strlit("0");
            assert("0"@ =~= seq!['0']);
        }
        "0"
    } else if d == 1 {
        proof {
            reveal_strlit("1");
            assert("1"@ =~= seq!['1']);
        }
        "1"
    } else if d == 2 {
        proof {
            reveal_strlit("2");
            assert("2"@ =~= seq!['2']);
        }
        "2"
    } else if d == 3 {
        proof {
            reveal_strlit("3");
            assert("3"@ =~= seq!['3']);
        }
        "3"
    } else if d == 4 {
        proof {
            reveal_strlit("4");
            assert("4"@ =~= seq!['4']);
        }
        "4"
    } else if d == 5 {
        proof {
            reveal_strlit("5");
            assert("5"@ =~= seq!['5']);
        }
        "5"
    } else if d == 6 {
        proof {
            reveal_strlit("6");
            assert("6"@ =~= seq!['6']);
        }
        "6"
    } else if d == 7 {
        proof {
            reveal_strlit("7");
            assert("7"@ =~= seq!['7']);
        }
        "7"
    } else if d == 8 {
        proof {
            reveal_strlit("8");
            assert("8"@ =~= seq!['8']);
        }
        "8"
    } else {
        proof {
            reveal_strlit("9");
            assert("9"@ =~= seq!['9']);
        }
        "9"
    }
}

/// Render `n` in decimal.
pub fn u64_to_dec(n: u64) -> (r: String)
    ensures
        r@ == dec_rep(n as int),
    decreases n,
{
    if n < 10 {
        String::from_str(digit_str(n))
    } else {
        let mut s = u64_to_dec(n / 10);
        let d = digit_str(n % 10);
        s.append(d);
        proof {
            assert(dec_rep((n / 10) as int) + seq![digit_char((n % 10) as int)] =~= dec_rep(
                (n / 10) as int,
            ).push(digit_char((n % 10) as int)));
        }
        s
    }
}

/// Left-align `s` in a field of `w` characters, padding with spaces; a
/// longer `s` is returned whole, never truncated.
pub fn pad_to(s: &str, w: usize) -> (r: String)
    ensures
        r@ == padded(s@, w as nat),
{
    let n = s.unicode_len();
    let mut out = String::from_str(s);
    if n >= w {
        return out;
    }
    proof {
        assert(s@ + pad_chars(0) =~= s@);
    }
    let mut i: usize = n;
    while i < w
        invariant
            n <= i <= w,
            n == s@.len(),
            out@ == s@ + pad_chars((i - n) as nat),
        decreases w - i,
    {
        out.append(" ");
        proof {
            reveal_strlit(" ");
            assert(s@ + pad_chars((i - n) as nat) + " "@ =~= s@ + pad_chars(
                (i + 1 - n) as nat,
            ));
        }
        i = i + 1;
    }
    out
}

/// Build one data row for `name` with age `elapsed`.
pub fn render_row(name: &str, elapsed: u64) -> (r: String)
    ensures
        r@ == age_row(name@, elapsed as int),
{
    let (years, days, hours, minutes, seconds) = crate::duration::mtime_since_now(elapsed);
    let mut out = pad_to(name, NAME_WIDTH);
    let cell = u64_to_dec(years);
    let padded_cell = pad_to(cell.as_str(), YEARS_WIDTH);
    out.append(padded_cell.as_str());
    let cell = u64_to_dec(days);
    let padded_cell = pad_to(cell.as_str(), DAYS_WIDTH);
    out.append(padded_cell.as_str());
    let cell = u64_to_dec(hours);
    let padded_cell = pad_to(cell.as_str(), SMALL_WIDTH);
    out.append(padded_cell.as_str());
    let cell = u64_to_dec(minutes);
    let padded_cell = pad_to(cell.as_str(), SMALL_WIDTH);
    out.append(padded_cell.as_str());
    let cell = u64_to_dec(seconds);
    let padded_cell = pad_to(cell.as_str(), SMALL_WIDTH);
    out.append(padded_cell.as_str());
    out
}

/// Build the first header line for the given mode label.
pub fn render_label_line(label: &str) -> (r: String)
    ensures
        r@ == label_line(label@),
{
    let mut out = pad_to(label, NAME_WIDTH);
    out.append("AGE:");
    out
}

/// Build the second header line for the given target path.
pub fn render_units_line(path: &str) -> (r: String)
    ensures
        r@ == units_line(path@),
{
    let mut out = pad_to(path, NAME_WIDTH);
    let padded_cell = pad_to("Y", YEARS_WIDTH);
    out.append(padded_cell.as_str());
    let padded_cell = pad_to("D", DAYS_WIDTH);
    out.append(padded_cell.as_str());
    let padded_cell = pad_to("H", SMALL_WIDTH);
    out.append(padded_cell.as_str());
    let padded_cell = pad_to("M", SMALL_WIDTH);
    out.append(padded_cell.as_str());
    let padded_cell = pad_to("S", SMALL_WIDTH);
    out.append(padded_cell.as_str());
    out
}

/// Build the separator line.
pub fn render_separator() -> (r: String)
    ensures
        r@ == separator_line(),
{
    String::from_str("-----------------------------------------------------------------")
}

} // verus!
