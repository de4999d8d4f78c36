//! Verified plain-text rendering: decimal numbers and exposition lines.

use vstd::prelude::*;
use vstd::string::StringExecFns;

verus! {

/// The character for the decimal digit `d`.
pub open spec fn digit_char(d: int) -> char {
    if d == 0 {
        '0'
    } else if d == 1 {
        '1'
    } else if d == 2 {
        '2'
    } else if d == 3 {
        '3'
    } else if d == 4 {
        '4'
    } else if d == 5 {
        '5'
    } else if d == 6 {
        '6'
    } else if d == 7 {
        '7'
    } else if d == 8 {
        '8'
    } else {
        '9'
    }
}

/// The decimal representation of `n`, most significant digit first, with no
/// leading zeroes (a single `0` for zero).
pub open spec fn dec_str(n: int) -> Seq<char>
    decreases n,
{
    if n <= 9 {
        seq![digit_char(n)]
    } else {
        dec_str(n / 10) + seq![digit_char(n % 10)]
    }
}

/// One exposition line: the metric name, one space, the decimal value, and a
/// trailing newline.
pub open spec fn metric_line(name: Seq<char>, value: int) -> Seq<char> {
    name + seq![' '] + dec_str(value) + seq!['\n']
}

/// Appends the character for the decimal digit `d` to `out`.
fn append_digit(out: &mut String, d: u16)
    requires
        d <= 9,
    ensures
        final(out)@ == old(out)@ + seq![digit_char(d as int)],
{
    let s: &str = match d {
        0 => "0",
        1 => "1",
        2 => "2",
        3 => "3",
        4 => "4",
        5 => "5",
        6 => "6",
        7 => "7",
        8 => "8",
        _ => "9",
    };
    proof {
        reveal_strlit("0");
        reveal_strlit("1");
        reveal_strlit("2");
        reveal_strlit("3");
        reveal_strlit("4");
        reveal_strlit("5");
        reveal_strlit("6");
        reveal_strlit("7");
        reveal_strlit("8");
        reveal_strlit("9");
        assert(s@ =~= seq![digit_char(d as int)]);
    }
    out.append(s);
}

/// Appends the decimal representation of `n` to `out`.
pub fn append_decimal(out: &mut String, n: u16)
    ensures
        final(out)@ == old(out)@ + dec_str(n as int),
    decreases n,
{
    if n >= 10 {
        append_decimal(out, n / 10);
        append_digit(out, n % 10);
        proof {
            assert(old(out)@ + dec_str(n as int) =~= (old(out)@ + dec_str(n as int / 10)) + seq![
                digit_char(n as int % 10),
            ]);
        }
    } else {
        append_digit(out, n);
    }
}

/// Appends one exposition line for the metric `name` with value `value`.
pub fn append_metric_line(out: &mut String, name: &str, value: u16)
    ensures
        final(out)@ == old(out)@ + metric_line(name@, value as int),
{
    out.append(name);
    out.append(" ");
    append_decimal(out, value);
    out.append("\n");
    proof {
        reveal_strlit(" ");
        reveal_strlit("\n");
        assert(old(out)@ + metric_line(name@, value as int) =~= (((old(out)@ + name@) + " "@)
            + dec_str(value as int)) + "\n"@);
    }
}

} // verus!
