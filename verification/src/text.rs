//! How numbers and spans of time are written out.

use vstd::prelude::*;
use crate::time::{Duration, MILLIS_PER_HOUR, MILLIS_PER_MINUTE, MILLIS_PER_SECOND};

verus! {

/// `String::push` appends one character to the text. Trusted.
pub assume_specification[ String::push ](text: &mut String, ch: char)
    ensures
        final(text)@ == old(text)@.push(ch),
;

/// The character for a decimal digit.
pub open spec fn digit(d: int) -> char {
    if d == 0 {
        '0'
    } else if d == 1 {
        '1'
    } else if d == 2 {
        '2'
    } else if d == 3 {
        '3'
    } else if d == 4 {
        '4'
    } else if d == 5 {
        '5'
    } else if d == 6 {
        '6'
    } else if d == 7 {
        '7'
    } else if d == 8 {
        '8'
    } else {
        '9'
    }
}

/// A number in decimal, without leading zeros.
pub open spec fn decimal(n: nat) -> Seq<char>
    decreases n,
{
    if n < 10 {
        seq![digit(n as int)]
    } else {
        decimal(n / 10).push(digit((n % 10) as int))
    }
}

/// `count` times the character `c`; nothing where `count` is not positive.
pub open spec fn repeated(c: char, count: int) -> Seq<char> {
    Seq::new(
        if count > 0 {
            count as nat
        } else {
            0
        },
        |i: int| c,
    )
}

/// A number in decimal, filled with zeros on the left up to `width`
/// characters; the sign of a negative number comes first and counts.
pub open spec fn zero_padded(value: int, width: int) -> Seq<char> {
    if value < 0 {
        seq!['-'] + repeated('0', width - 1 - decimal((-value) as nat).len()) + decimal(
            (-value) as nat,
        )
    } else {
        repeated('0', width - decimal(value as nat).len()) + decimal(value as nat)
    }
}

/// A text filled with spaces on the right up to `width` characters.
pub open spec fn left_aligned(text: Seq<char>, width: int) -> Seq<char> {
    text + repeated(' ', width - text.len())
}

/// The quotient of `a` by a positive `b`, rounded towards zero.
pub open spec fn quotient(a: int, b: int) -> int {
    if a >= 0 {
        a / b
    } else {
        -((-a) / b)
    }
}

/// The whole hours in a span of `millis` milliseconds.
pub open spec fn hours_part(millis: int) -> int {
    quotient(millis, MILLIS_PER_HOUR as int)
}

/// The whole minutes that are left beyond the whole hours.
pub open spec fn minutes_part(millis: int) -> int {
    quotient(millis - hours_part(millis) * MILLIS_PER_HOUR, MILLIS_PER_MINUTE as int)
}

/// The whole seconds that are left beyond the whole minutes.
pub open spec fn seconds_part(millis: int) -> int {
    quotient(
        millis - hours_part(millis) * MILLIS_PER_HOUR - minutes_part(millis) * MILLIS_PER_MINUTE,
        MILLIS_PER_SECOND as int,
    )
}

/// The milliseconds that are left beyond the whole seconds.
pub open spec fn millis_part(millis: int) -> int {
    millis - hours_part(millis) * MILLIS_PER_HOUR - minutes_part(millis) * MILLIS_PER_MINUTE
        - seconds_part(millis) * MILLIS_PER_SECOND
}

/// A span of `millis` milliseconds written as `H:MM:SS.mmm`: the hours as
/// they are, minutes and seconds in two digits, milliseconds in three.
///
/// In a negative span each part that is not zero is negative and carries its
/// own sign.
pub open spec fn duration_text(millis: int) -> Seq<char> {
    zero_padded(hours_part(millis), 1) + seq![':'] + zero_padded(minutes_part(millis), 2) + seq![
        ':',
    ] + zero_padded(seconds_part(millis), 2) + seq!['.'] + zero_padded(millis_part(millis), 3)
}

/// The character for the decimal digit `d`.
fn digit_char(d: u64) -> (c: char)
    requires
        d < 10,
    ensures
        c == digit(d as int),
{
    if d == 0 {
        '0'
    } else if d == 1 {
        '1'
    } else if d == 2 {
        '2'
    } else if d == 3 {
        '3'
    } else if d == 4 {
        '4'
    } else if d == 5 {
        '5'
    } else if d == 6 {
        '6'
    } else if d == 7 {
        '7'
    } else if d == 8 {
        '8'
    } else {
        '9'
    }
}

/// The number of digits that `value` has in decimal.
fn decimal_len(value: u64) -> (len: usize)
    ensures
        len == decimal(value as nat).len(),
        1 <= len <= 20,
    decreases value,
{
    if value < 10 {
        1
    } else {
        let shorter: usize = decimal_len(value / 10);
        proof {
            lemma_decimal_len(value as nat);
        }
        shorter + 1
    }
}

/// A number below ten to the power `k` has at most `k` digits; stated here
/// for the numbers that sixty-four bits hold.
proof fn lemma_decimal_len(n: nat)
    requires
        n <= u64::MAX,
    ensures
        1 <= decimal(n).len() <= 20,
{
    reveal_with_fuel(decimal, 21);
}

/// Appends `value` in decimal.
pub fn push_decimal(out: &mut String, value: u64)
    ensures
        final(out)@ == old(out)@ + decimal(value as nat),
    decreases value,
{
    if value >= 10 {
        push_decimal(out, value / 10);
    }
    out.push(digit_char(value % 10));
    proof {
        if value >= 10 {
            assert(old(out)@ + decimal(value as nat) =~= (old(out)@ + decimal((value / 10) as nat)).push(
                digit((value % 10) as int),
            ));
        } else {
            assert(old(out)@ + decimal(value as nat) =~= old(out)@.push(digit(value as int)));
        }
    }
}

/// Appends `count` times the character `c`.
pub fn push_repeated(out: &mut String, c: char, count: usize)
    ensures
        final(out)@ == old(out)@ + repeated(c, count as int),
{
    let mut i: usize = 0;
    assert(out@ =~= old(out)@ + repeated(c, 0));
    while i < count
        invariant
            i <= count,
            out@ == old(out)@ + repeated(c, i as int),
        decreases count - i,
    {
        out.push(c);
        i += 1;
        assert(out@ =~= old(out)@ + repeated(c, i as int));
    }
}

/// Appends a number in decimal, filled with zeros up to `width` characters.
/// The number is `magnitude`, negated where `negative` is set.
pub fn push_zero_padded(out: &mut String, negative: bool, magnitude: u64, width: usize)
    ensures
        final(out)@ == old(out)@ + zero_padded(
            if negative {
                -(magnitude as int)
            } else {
                magnitude as int
            },
            width as int,
        ),
{
    let len: usize = decimal_len(magnitude);
    if negative && magnitude > 0 {
        out.push('-');
        let zeros: usize = if width > len + 1 {
            width - 1 - len
        } else {
            0
        };
        push_repeated(out, '0', zeros);
        push_decimal(out, magnitude);
        assert(repeated('0', zeros as int) =~= repeated('0', width - 1 - len));
        assert(out@ =~= old(out)@ + zero_padded(-(magnitude as int), width as int));
    } else {
        let zeros: usize = if width > len {
            width - len
        } else {
            0
        };
        push_repeated(out, '0', zeros);
        push_decimal(out, magnitude);
        assert(repeated('0', zeros as int) =~= repeated('0', width - len));
        assert(out@ =~= old(out)@ + zero_padded(magnitude as int, width as int));
    }
}

/// Appends `text`, filled with spaces on the right up to `width` characters.
pub fn push_left_aligned(out: &mut String, text: &str, width: usize)
    ensures
        final(out)@ == old(out)@ + left_aligned(text@, width as int),
{
    let len: usize = text.unicode_len();
    out.append(text);
    let spaces: usize = if width > len {
        width - len
    } else {
        0
    };
    push_repeated(out, ' ', spaces);
    assert(repeated(' ', spaces as int) =~= repeated(' ', width - len));
    assert(out@ =~= old(out)@ + left_aligned(text@, width as int));
}

/// Appends a span of time as `H:MM:SS.mmm`.
pub fn push_duration(out: &mut String, duration: &Duration)
    ensures
        final(out)@ == old(out)@ + duration_text(duration.millis as int),
{
    let millis: i64 = duration.millis;
    let negative: bool = millis < 0;
    let magnitude: u64 = if negative {
        (-(millis as i128)) as u64
    } else {
        millis as u64
    };
    let hours: u64 = magnitude / 3600000;
    let below_hour: u64 = magnitude % 3600000;
    let minutes: u64 = below_hour / 60000;
    let below_minute: u64 = below_hour % 60000;
    let seconds: u64 = below_minute / 1000;
    let below_second: u64 = below_minute % 1000;
    proof {
        let m = millis as int;
        if negative {
            assert(hours_part(m) == -(hours as int));
            assert(minutes_part(m) == -(minutes as int));
            assert(seconds_part(m) == -(seconds as int));
            assert(millis_part(m) == -(below_second as int));
        } else {
            assert(hours_part(m) == hours);
            assert(minutes_part(m) == minutes);
            assert(seconds_part(m) == seconds);
            assert(millis_part(m) == below_second);
        }
    }
    push_zero_padded(out, negative, hours, 1);
    out.push(':');
    push_zero_padded(out, negative, minutes, 2);
    out.push(':');
    push_zero_padded(out, negative, seconds, 2);
    out.push('.');
    push_zero_padded(out, negative, below_second, 3);
    assert(out@ =~= old(out)@ + duration_text(millis as int));
}

/// Writes a span of time as `H:MM:SS.mmm`.
pub fn format_duration(duration: &Duration) -> (text: String)
    ensures
        text@ == duration_text(duration.millis as int),
{
    let mut text = String::new();
    push_duration(&mut text, duration);
    assert(text@ =~= duration_text(duration.millis as int));
    text
}

} // verus!
