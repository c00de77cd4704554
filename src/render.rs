//! The text that a search prints: emitted lines, the header and the notices.
use vstd::prelude::*;

verus! {

/// The decimal digit for `d < 10`.
pub open spec fn digit_char(d: nat) -> char {
    seq!['0', '1', '2', '3', '4', '5', '6', '7', '8', '9'][d as int]
}

/// The decimal form of `n`, most significant digit first, without leading
/// zeros (`0` is written `"0"`).
pub open spec fn decimal(n: nat) -> Seq<char>
    decreases n,
{
    if n < 10 {
        seq![digit_char(n)]
    } else {
        decimal(n / 10).push(digit_char(n % 10))
    }
}

/// An emitted line: `"{number}:{text}"` when line numbers are shown, the
/// text alone otherwise.
pub open spec fn render_line(show_line_number: bool, number: nat, text: Seq<char>) -> Seq<char> {
    if show_line_number {
        decimal(number) + seq![':'] + text
    } else {
        text
    }
}

fn digit_str(d: u64) -> (r: &'static str)
    requires
        d < 10,
    ensures
        r@ == seq![digit_char(d as nat)],
{
    proof {
        reveal_strlit("0");
        reveal_strlit("1");
        reveal_strlit("2");
        reveal_strlit("3");
        reveal_strlit("4");
        reveal_strlit("5");
        reveal_strlit("6");
        reveal_strlit("7");
        reveal_strlit("8");
        reveal_strlit("9");
    }
    if d == 0 {
        "0"
    } else if d == 1 {
        "1"
    } else if d == 2 {
        "2"
    } else if d == 3 {
        "3"
    } else if d == 4 {
        "4"
    } else if d == 5 {
        "5"
    } else if d == 6 {
        "6"
    } else if d == 7 {
        "7"
    } else if d == 8 {
        "8"
    } else {
        "9"
    }
}

/// Appends the decimal form of `n` to `out`.
pub fn push_decimal(out: &mut String, n: u64)
    ensures
        final(out)@ == old(out)@ + decimal(n as nat),
    decreases n,
{
    if n >= 10 {
        push_decimal(out, n / 10);
    }
    out.append(digit_str(n % 10));
    assert(out@ =~= old(out)@ + decimal(n as nat));
}

/// The text emitted for a matching line.
pub fn render_match(show_line_number: bool, line_number: u64, text: &str) -> (r: String)
    ensures
        r@ == render_line(show_line_number, line_number as nat, text@),
{
    if show_line_number {
        let mut out = String::new();
        push_decimal(&mut out, line_number);
        proof {
            reveal_strlit(":");
        }
        out.append(":");
        out.append(text);
        assert(out@ =~= render_line(show_line_number, line_number as nat, text@));
        out
    } else {
        String::from_str(text)
    }
}

} // verus!
