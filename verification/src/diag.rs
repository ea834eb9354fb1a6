//! The diagnostic record written for a discarded line:
//! `DISCARD:<admitted_count>/<limit>:<line>`, with no framing added
//! beyond what the line itself carries.

use vstd::prelude::*;

verus! {

/// The character for a single decimal digit.
pub open spec fn digit_char(d: int) -> char {
    if d == 0 {
        '0'
    } else if d == 1 {
        '1'
    } else if d == 2 {
        '2'
    } else if d == 3 {
        '3'
    } else if d == 4 {
        '4'
    } else if d == 5 {
        '5'
    } else if d == 6 {
        '6'
    } else if d == 7 {
        '7'
    } else if d == 8 {
        '8'
    } else {
        '9'
    }
}

/// The usual decimal rendering of a non-negative integer: most significant
/// digit first, no leading zeros except for the number 0 itself.
pub open spec fn dec_seq(n: int) -> Seq<char>
    decreases n,
{
    if n < 10 {
        seq![digit_char(n)]
    } else {
        dec_seq(n / 10).push(digit_char(n % 10))
    }
}

/// The diagnostic record for a line discarded at admitted count `c`
/// against limit `l`: the tag `DISCARD`, the two counters, and the raw
/// line content, exactly as written to the diagnostics stream.
pub open spec fn discard_message(c: int, l: int, line: Seq<char>) -> Seq<char> {
    "DISCARD:"@ + dec_seq(c) + "/"@ + dec_seq(l) + ":"@ + line
}

/// Append the character of one decimal digit to `s`.
fn push_digit(s: &mut String, d: usize)
    requires
        d < 10,
    ensures
        final(s)@ == old(s)@ + seq![digit_char(d as int)],
{
    let piece: &str = if d == 0 {
        "0"
    } else if d == 1 {
        "1"
    } else if d == 2 {
        "2"
    } else if d == 3 {
        "3"
    } else if d == 4 {
        "4"
    } else if d == 5 {
        "5"
    } else if d == 6 {
        "6"
    } else if d == 7 {
        "7"
    } else if d == 8 {
        "8"
    } else {
        "9"
    };
    proof {
        reveal_strlit("0");
        reveal_strlit("1");
        reveal_strlit("2");
        reveal_strlit("3");
        reveal_strlit("4");
        reveal_strlit("5");
        reveal_strlit("6");
        reveal_strlit("7");
        reveal_strlit("8");
        reveal_strlit("9");
    }
    s.append(piece);
    proof {
        assert(s@ =~= old(s)@ + seq![digit_char(d as int)]);
    }
}

/// Append the decimal rendering of `n` to `s`.
fn push_dec(s: &mut String, n: usize)
    ensures
        final(s)@ == old(s)@ + dec_seq(n as int),
    decreases n,
{
    if n >= 10 {
        push_dec(s, n / 10);
    }
    push_digit(s, n % 10);
    proof {
        assert(s@ =~= old(s)@ + dec_seq(n as int));
    }
}

/// Render the diagnostic record for a line discarded at admitted count
/// `count` against limit `limit`. No newline is appended: the record ends
/// with whatever terminator the line itself carries.
pub fn render_discard(count: usize, limit: usize, line: &str) -> (r: String)
    ensures
        r@ == discard_message(count as int, limit as int, line@),
{
    let mut s = String::from_str("DISCARD:");
    push_dec(&mut s, count);
    s.append("/");
    push_dec(&mut s, limit);
    s.append(":");
    s.append(line);
    proof {
        assert(s@ =~= discard_message(count as int, limit as int, line@));
    }
    s
}

} // verus!
