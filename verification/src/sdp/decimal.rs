//! Numbers in decimal notation, read and written.

use crate::sdp::util::is_digit;
use vstd::prelude::*;
use vstd::string::*;

verus! {

/// The number that a digit stands for.
pub open spec fn digit_value(c: char) -> nat {
    (c as u32 - '0' as u32) as nat
}

/// The digit that stands for a number below ten.
pub open spec fn digit_char(d: nat) -> char {
    if d == 0 {
        '0'
    } else if d == 1 {
        '1'
    } else if d == 2 {
        '2'
    } else if d == 3 {
        '3'
    } else if d == 4 {
        '4'
    } else if d == 5 {
        '5'
    } else if d == 6 {
        '6'
    } else if d == 7 {
        '7'
    } else if d == 8 {
        '8'
    } else {
        '9'
    }
}

/// The number that the digits of the text from `from` up to `to` stand
/// for, in decimal notation.
pub open spec fn digits_value(text: Seq<char>, from: int, to: int) -> nat
    decreases to - from,
{
    if to <= from {
        0
    } else {
        digits_value(text, from, to - 1) * 10 + digit_value(text[to - 1])
    }
}

/// A number in decimal notation, without leading zeros.
pub open spec fn decimal(n: nat) -> Seq<char>
    decreases n,
{
    if n < 10 {
        seq![digit_char(n)]
    } else {
        decimal(n / 10).push(digit_char(n % 10))
    }
}

/// A number in decimal notation, with a minus sign where it is negative.
pub open spec fn signed_decimal(n: int) -> Seq<char> {
    if n < 0 {
        seq!['-'] + decimal((-n) as nat)
    } else {
        decimal(n as nat)
    }
}

/// With one more digit the number does not get smaller.
pub proof fn lemma_digits_value_grows(text: Seq<char>, from: int, mid: int, to: int)
    requires
        from <= mid <= to,
    ensures
        digits_value(text, from, mid) <= digits_value(text, from, to),
    decreases to - mid,
{
    if mid < to {
        lemma_digits_value_grows(text, from, mid, to - 1);
    }
}

/// Reads the digits of the text from `from` up to `to` as a number, unless
/// the number is too great for `u64`.
pub fn read_decimal(input: &str, from: usize, to: usize) -> (value: Option<u64>)
    requires
        from <= to <= input@.len(),
        forall|i: int| from <= i < to ==> is_digit(#[trigger] input@[i]),
    ensures
        value == if digits_value(input@, from as int, to as int) <= u64::MAX {
            Some(digits_value(input@, from as int, to as int) as u64)
        } else {
            None
        },
{
    let mut value: u64 = 0;
    let mut i: usize = from;
    while i < to
        invariant
            from <= i <= to <= input@.len(),
            forall|j: int| from <= j < to ==> is_digit(#[trigger] input@[j]),
            value == digits_value(input@, from as int, i as int),
        decreases to - i,
    {
        let c: char = input.get_char(i);
        assert(is_digit(input@[i as int]));
        let digit: u64 = (c as u32 - '0' as u32) as u64;
        proof {
            lemma_digits_value_grows(input@, from as int, i + 1, to as int);
        }
        if value > (u64::MAX - digit) / 10 {
            return None;
        }
        value = value * 10 + digit;
        i += 1;
    }
    Some(value)
}

/// The digit that stands for a number below ten, as text.
fn digit_text(d: u64) -> (text: &'static str)
    requires
        d < 10,
    ensures
        text@ == seq![digit_char(d as nat)],
{
    proof {
        reveal_strlit("0");
        reveal_strlit("1");
        reveal_strlit("2");
        reveal_strlit("3");
        reveal_strlit("4");
        reveal_strlit("5");
        reveal_strlit("6");
        reveal_strlit("7");
        reveal_strlit("8");
        reveal_strlit("9");
    }
    let text = if d == 0 {
        "0"
    } else if d == 1 {
        "1"
    } else if d == 2 {
        "2"
    } else if d == 3 {
        "3"
    } else if d == 4 {
        "4"
    } else if d == 5 {
        "5"
    } else if d == 6 {
        "6"
    } else if d == 7 {
        "7"
    } else if d == 8 {
        "8"
    } else {
        "9"
    };
    assert(text@ =~= seq![digit_char(d as nat)]);
    text
}

/// Writes a number in decimal notation after what `out` holds.
pub fn push_decimal(out: &mut String, n: u64)
    ensures
        final(out)@ == old(out)@ + decimal(n as nat),
    decreases n,
{
    if n >= 10 {
        push_decimal(out, n / 10);
    }
    out.append(digit_text(n % 10));
    assert(out@ =~= old(out)@ + decimal(n as nat));
}

/// Writes a number in decimal notation after what `out` holds, with a minus
/// sign where it is negative.
pub fn push_signed_decimal(out: &mut String, n: i64)
    ensures
        final(out)@ == old(out)@ + signed_decimal(n as int),
{
    if n < 0 {
        proof {
            reveal_strlit("-");
        }
        out.append("-");
        let magnitude: u64 = (-(n + 1)) as u64 + 1;
        push_decimal(out, magnitude);
        assert(out@ =~= old(out)@ + signed_decimal(n as int));
    } else {
        push_decimal(out, n as u64);
    }
}

/// A digit stands for the number that it was chosen for.
pub proof fn lemma_digit_char(d: nat)
    requires
        d < 10,
    ensures
        is_digit(digit_char(d)),
        digit_value(digit_char(d)) == d,
{
}

/// The number that digits stand for depends on these digits alone: the
/// same digits at another place, in another text, stand for the same number.
pub proof fn lemma_digits_value_moved(a: Seq<char>, from: int, b: Seq<char>, at: int, len: int)
    requires
        0 <= len,
        forall|i: int| from <= i < from + len ==> #[trigger] a[i] == b[i - from + at],
    ensures
        digits_value(a, from, from + len) == digits_value(b, at, at + len),
    decreases len,
{
    if len > 0 {
        lemma_digits_value_moved(a, from, b, at, len - 1);
        assert(a[from + len - 1] == b[at + len - 1]);
    }
}

/// A number in decimal notation is digits, at least one, which stand for
/// the number.
pub proof fn lemma_decimal(n: nat)
    ensures
        decimal(n).len() >= 1,
        forall|i: int| 0 <= i < decimal(n).len() ==> is_digit(#[trigger] decimal(n)[i]),
        digits_value(decimal(n), 0, decimal(n).len() as int) == n,
    decreases n,
{
    let text = decimal(n);
    lemma_digit_char(n % 10);
    if n < 10 {
        assert(digits_value(text, 0, 0) == 0);
        assert(digits_value(text, 0, 1) == digits_value(text, 0, 0) * 10 + digit_value(text[0]));
    } else {
        let head = decimal(n / 10);
        lemma_decimal(n / 10);
        assert(text.len() == head.len() + 1);
        assert forall|i: int| 0 <= i < text.len() implies is_digit(#[trigger] text[i]) by {
            if i < head.len() {
                assert(text[i] == head[i]);
            }
        }
        lemma_digits_value_moved(text, 0, head, 0, head.len() as int);
        assert(digits_value(text, 0, text.len() as int) == digits_value(
            text,
            0,
            text.len() - 1,
        ) * 10 + digit_value(text[text.len() - 1]));
    }
}

} // verus!
