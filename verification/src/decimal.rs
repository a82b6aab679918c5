//! Numbers as decimal text.

use vstd::prelude::*;
use vstd::utf8::*;

verus! {

/// The character of a digit.
pub open spec fn digit(d: int) -> char {
    if d == 0 {
        '0'
    } else if d == 1 {
        '1'
    } else if d == 2 {
        '2'
    } else if d == 3 {
        '3'
    } else if d == 4 {
        '4'
    } else if d == 5 {
        '5'
    } else if d == 6 {
        '6'
    } else if d == 7 {
        '7'
    } else if d == 8 {
        '8'
    } else {
        '9'
    }
}

/// `n` in decimal, without leading zeros.
pub open spec fn decimal(n: nat) -> Seq<char>
    decreases n,
{
    if n < 10 {
        seq![digit(n as int)]
    } else {
        decimal(n / 10).push(digit((n % 10) as int))
    }
}

/// So many zeros.
pub open spec fn zeros(count: int) -> Seq<char> {
    Seq::new(
        if count > 0 {
            count as nat
        } else {
            0
        },
        |i: int| '0',
    )
}

/// `n` in decimal, at least `width` characters wide: zeros fill the space
/// between the sign, if there is one, and the digits.
pub open spec fn padded(n: int, width: int) -> Seq<char> {
    if n >= 0 {
        zeros(width - decimal(n as nat).len()) + decimal(n as nat)
    } else {
        "-"@ + zeros(width - 1 - decimal((-n) as nat).len()) + decimal((-n) as nat)
    }
}

fn digit_text(d: u64) -> (text: &'static str)
    requires
        d < 10,
    ensures
        text@ == seq![digit(d as int)],
{
    proof {
        reveal_strlit("0");
        reveal_strlit("1");
        reveal_strlit("2");
        reveal_strlit("3");
        reveal_strlit("4");
        reveal_strlit("5");
        reveal_strlit("6");
        reveal_strlit("7");
        reveal_strlit("8");
        reveal_strlit("9");
    }
    let text: &'static str = match d {
        0 => "0",
        1 => "1",
        2 => "2",
        3 => "3",
        4 => "4",
        5 => "5",
        6 => "6",
        7 => "7",
        8 => "8",
        _ => "9",
    };
    assert(text@ =~= seq![digit(d as int)]);
    text
}

/// Appends `n` in decimal.
pub fn push_decimal(out: &mut String, n: u64)
    ensures
        final(out)@ == old(out)@ + decimal(n as nat),
    decreases n,
{
    if n >= 10 {
        push_decimal(out, n / 10);
    }
    out.append(digit_text(n % 10));
    assert(out@ =~= old(out)@ + decimal(n as nat));
}

/// Appends `n` in decimal, filled up with zeros in front to `width` characters.
fn push_zero_filled(out: &mut String, n: u64, width: u64)
    ensures
        final(out)@ == old(out)@ + zeros(width - decimal(n as nat).len()) + decimal(n as nat),
    decreases n,
{
    if n >= 10 {
        let rest: u64 = if width > 0 {
            width - 1
        } else {
            0
        };
        push_zero_filled(out, n / 10, rest);
        proof {
            assert(decimal(n as nat).len() == decimal((n / 10) as nat).len() + 1);
            assert(zeros(rest - decimal((n / 10) as nat).len()) =~= zeros(
                width - decimal(n as nat).len(),
            ));
        }
    } else {
        let mut left: u64 = width;
        while left > 1
            invariant
                left <= width,
                width >= 1 ==> left >= 1,
                out@ == old(out)@ + zeros(width - left),
            decreases left,
        {
            proof {
                reveal_strlit("0");
            }
            out.append("0");
            left = left - 1;
            assert(out@ =~= old(out)@ + zeros(width - left));
        }
        assert(zeros(width - left) =~= zeros(width - decimal(n as nat).len()));
    }
    out.append(digit_text(n % 10));
    assert(out@ =~= old(out)@ + zeros(width - decimal(n as nat).len()) + decimal(n as nat));
}

/// Appends `n` in decimal, at least `width` characters wide.
pub fn push_padded(out: &mut String, n: i64, width: u64)
    ensures
        final(out)@ == old(out)@ + padded(n as int, width as int),
{
    if n >= 0 {
        push_zero_filled(out, n as u64, width);
        assert(out@ =~= old(out)@ + padded(n as int, width as int));
    } else {
        // One is taken off and put back, so that the smallest number has its negative.
        let magnitude: u64 = (-(n + 1)) as u64 + 1;
        let rest: u64 = if width > 0 {
            width - 1
        } else {
            0
        };
        out.append("-");
        push_zero_filled(out, magnitude, rest);
        proof {
            assert(decimal(magnitude as nat).len() >= 1);
            assert(zeros(rest - decimal(magnitude as nat).len()) =~= zeros(
                width - 1 - decimal(magnitude as nat).len(),
            ));
            assert(out@ =~= old(out)@ + padded(n as int, width as int));
        }
    }
}

/// The digit of a character.
pub open spec fn digit_value(c: char) -> int {
    c as int - '0' as int
}

/// The number that a text of digits says.
pub open spec fn value(text: Seq<char>) -> int
    decreases text.len(),
{
    if text.len() == 0 {
        0
    } else {
        10 * value(text.drop_last()) + digit_value(text.last())
    }
}

proof fn lemma_value_of_decimal(n: nat)
    ensures
        value(decimal(n)) == n,
    decreases n,
{
    if n < 10 {
        reveal_with_fuel(value, 2);
    } else {
        lemma_value_of_decimal(n / 10);
        assert(decimal(n).drop_last() =~= decimal(n / 10));
    }
}

proof fn lemma_zeros_have_no_value(count: int, text: Seq<char>)
    ensures
        value(zeros(count) + text) == value(text),
    decreases
            if count > 0 {
                count
            } else {
                0
            },
            text.len(),
{
    let all = zeros(count) + text;
    if text.len() > 0 {
        assert(all.drop_last() =~= zeros(count) + text.drop_last());
        lemma_zeros_have_no_value(count, text.drop_last());
    } else if count > 0 {
        assert(all.drop_last() =~= zeros(count - 1) + text);
        lemma_zeros_have_no_value(count - 1, text);
    } else {
        assert(all =~= text);
    }
}

/// Decimal text is ASCII.
pub proof fn decimals_are_ascii(n: nat)
    ensures
        is_ascii_chars(decimal(n)),
    decreases n,
{
    if n >= 10 {
        decimals_are_ascii(n / 10);
    }
}

/// Different numbers that are not negative look different, whatever the width.
pub proof fn padded_numbers_are_told_apart(a: int, b: int, width: int)
    requires
        0 <= a,
        0 <= b,
        padded(a, width) == padded(b, width),
    ensures
        a == b,
{
    lemma_zeros_have_no_value(width - decimal(a as nat).len(), decimal(a as nat));
    lemma_zeros_have_no_value(width - decimal(b as nat).len(), decimal(b as nat));
    lemma_value_of_decimal(a as nat);
    lemma_value_of_decimal(b as nat);
}

/// Padded decimal text is ASCII.
pub proof fn padded_decimals_are_ascii(n: int, width: int)
    ensures
        is_ascii_chars(padded(n, width)),
{
    reveal_strlit("-");
    if n >= 0 {
        decimals_are_ascii(n as nat);
    } else {
        decimals_are_ascii((-n) as nat);
    }
}

/// Padded text that is no wider than asked is the text of the tens and then the
/// last digit.
proof fn lemma_last_digit(n: int, width: int)
    requires
        0 <= n,
        1 < width,
        padded(n, width).len() == width,
    ensures
        padded(n / 10, width - 1).len() == width - 1,
        padded(n, width) == padded(n / 10, width - 1).push(digit(n % 10)),
{
    if n < 10 {
        assert(padded(n, width) =~= padded(0, width - 1).push(digit(n)));
    } else {
        assert(padded(n, width) =~= padded(n / 10, width - 1).push(digit(n % 10)));
    }
}

/// Numbers that are padded to the same width, and not wider, are in the order of
/// their texts.
pub proof fn padded_numbers_are_in_order(a: int, b: int, width: int)
    requires
        0 <= a < b,
        1 <= width,
        padded(a, width).len() == width,
        padded(b, width).len() == width,
    ensures
        crate::text_order::goes_before(padded(a, width), padded(b, width)),
    decreases width,
{
    let x = padded(a, width);
    let y = padded(b, width);
    if width == 1 {
        assert(b < 10);
        assert(x =~= seq![digit(a)]);
        assert(y =~= seq![digit(b)]);
        assert(x.take(0) =~= y.take(0));
        assert(crate::text_order::lower_from(x, y, 0));
    } else {
        lemma_last_digit(a, width);
        lemma_last_digit(b, width);
        let p = padded(a / 10, width - 1);
        let q = padded(b / 10, width - 1);
        if a / 10 < b / 10 {
            padded_numbers_are_in_order(a / 10, b / 10, width - 1);
            crate::text_order::lemma_before_in_parts(
                p,
                q,
                seq![digit(a % 10)],
                seq![digit(b % 10)],
            );
            assert(x =~= p + seq![digit(a % 10)]);
            assert(y =~= q + seq![digit(b % 10)]);
        } else {
            assert(a / 10 == b / 10 && a % 10 < b % 10);
            assert(x.take(width - 1) =~= p);
            assert(y.take(width - 1) =~= p);
            assert(crate::text_order::lower_from(x, y, width - 1));
        }
    }
}

/// A number in decimal is digits only, without leading zeros, and says that number.
pub proof fn decimals_say_their_number(n: nat)
    ensures
        value(decimal(n)) == n,
        decimal(n).len() >= 1,
        decimal(n)[0] == '0' ==> n == 0 && decimal(n).len() == 1,
        forall|i: int| 0 <= i < decimal(n).len() ==> '0' <= #[trigger] decimal(n)[i] <= '9',
    decreases n,
{
    lemma_value_of_decimal(n);
    if n >= 10 {
        decimals_say_their_number(n / 10);
    }
}

/// A padded number is at least as wide as asked and says that number; it has leading
/// zeros only where it would be narrower without them. A negative one is a minus sign and
/// the padded number without it.
pub proof fn padded_numbers_say_their_number(n: int, width: int)
    ensures
        padded(n, width).len() >= width,
        n >= 0 ==> value(padded(n, width)) == n,
        n >= 0 ==> forall|i: int|
            0 <= i < padded(n, width).len() ==> '0' <= #[trigger] padded(n, width)[i] <= '9',
        n >= 0 && padded(n, width).len() > width ==> padded(n, width) == decimal(n as nat),
        n < 0 ==> padded(n, width) == "-"@ + padded(-n, width - 1),
{
    reveal_strlit("-");
    if n >= 0 {
        decimals_say_their_number(n as nat);
        lemma_zeros_have_no_value(width - decimal(n as nat).len(), decimal(n as nat));
        if padded(n, width).len() > width {
            assert(padded(n, width) =~= decimal(n as nat));
        }
    } else {
        assert(padded(n, width) =~= "-"@ + padded(-n, width - 1));
    }
}

} // verus!
