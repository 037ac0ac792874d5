//! The request handler's reply: for a request `(name, value)` the reply text
//! is exactly `"Hello {name}, I got {value}"`, with `value` rendered in
//! decimal (a leading `-` when negative, no leading zeros otherwise).

use vstd::prelude::*;
use vstd::string::StringExecFns;

verus! {

/// The decimal digit character for `d` in `0..10`.
pub open spec fn digit_char(d: int) -> char {
    if d == 0 {
        '0'
    } else if d == 1 {
        '1'
    } else if d == 2 {
        '2'
    } else if d == 3 {
        '3'
    } else if d == 4 {
        '4'
    } else if d == 5 {
        '5'
    } else if d == 6 {
        '6'
    } else if d == 7 {
        '7'
    } else if d == 8 {
        '8'
    } else {
        '9'
    }
}

/// The decimal digits of a nonnegative `n`, most significant first, with no
/// leading zeros (a single `'0'` for zero itself).
pub open spec fn dec_digits(n: int) -> Seq<char>
    decreases n,
{
    if n < 10 {
        seq![digit_char(n)]
    } else {
        dec_digits(n / 10).push(digit_char(n % 10))
    }
}

/// The decimal rendering of `v`: its digits, preceded by `'-'` when negative.
pub open spec fn dec_int(v: int) -> Seq<char> {
    if v < 0 {
        seq!['-'] + dec_digits(-v)
    } else {
        dec_digits(v)
    }
}

/// The reply owed for a request `(name, value)`:
/// exactly `"Hello {name}, I got {value}"`.
pub open spec fn reply_message(name: Seq<char>, value: int) -> Seq<char> {
    "Hello "@ + name + ", I got "@ + dec_int(value)
}

/// The one-character string for digit `d`.
fn digit_str(d: u32) -> (s: &'static str)
    requires
        d < 10,
    ensures
        s@ == seq![digit_char(d as int)],
{
    proof {
        reveal_strlit("0");
        reveal_strlit("1");
        reveal_strlit("2");
        reveal_strlit("3");
        reveal_strlit("4");
        reveal_strlit("5");
        reveal_strlit("6");
        reveal_strlit("7");
        reveal_strlit("8");
        reveal_strlit("9");
    }
    let s: &'static str = match d {
        0 => "0",
        1 => "1",
        2 => "2",
        3 => "3",
        4 => "4",
        5 => "5",
        6 => "6",
        7 => "7",
        8 => "8",
        _ => "9",
    };
    proof {
        assert(s@ =~= seq![digit_char(d as int)]);
    }
    s
}

/// Appends the decimal digits of `n` to `out`, most significant first.
fn push_decimal_u32(out: &mut String, n: u32)
    ensures
        final(out)@ == old(out)@ + dec_digits(n as int),
    decreases n,
{
    if n >= 10 {
        push_decimal_u32(out, n / 10);
    }
    let d = digit_str(n % 10);
    out.append(d);
    proof {
        assert(out@ =~= old(out)@ + dec_digits(n as int));
    }
}

/// Appends the decimal rendering of `v` to `out`.
fn push_decimal_i32(out: &mut String, v: i32)
    ensures
        final(out)@ == old(out)@ + dec_int(v as int),
{
    if v < 0 {
        out.append("-");
        let wide: i64 = -(v as i64);
        let m: u32 = wide as u32;
        push_decimal_u32(out, m);
        proof {
            reveal_strlit("-");
            assert("-"@ =~= seq!['-']);
            assert(m as int == -(v as int));
            assert(out@ =~= old(out)@ + dec_int(v as int));
        }
    } else {
        push_decimal_u32(out, v as u32);
    }
}

/// Composes the reply for `(name, value)`: `"Hello {name}, I got {value}"`.
pub fn make_reply(name: &str, value: i32) -> (reply: String)
    ensures
        reply@ == reply_message(name@, value as int),
{
    let mut r = String::from_str("Hello ");
    r.append(name);
    r.append(", I got ");
    push_decimal_i32(&mut r, value);
    proof {
        assert(r@ =~= reply_message(name@, value as int));
    }
    r
}

} // verus!
