//! Whole numbers as decimal text.

use vstd::prelude::*;
use crate::order::lex_le;

verus! {

/// The digit character for a value below ten.
pub open spec fn digit_char(d: int) -> char {
    if d == 0 {
        '0'
    } else if d == 1 {
        '1'
    } else if d == 2 {
        '2'
    } else if d == 3 {
        '3'
    } else if d == 4 {
        '4'
    } else if d == 5 {
        '5'
    } else if d == 6 {
        '6'
    } else if d == 7 {
        '7'
    } else if d == 8 {
        '8'
    } else {
        '9'
    }
}

/// The value of a digit character, or ten for any other character.
pub open spec fn digit_value(c: char) -> int {
    if c == '0' {
        0
    } else if c == '1' {
        1
    } else if c == '2' {
        2
    } else if c == '3' {
        3
    } else if c == '4' {
        4
    } else if c == '5' {
        5
    } else if c == '6' {
        6
    } else if c == '7' {
        7
    } else if c == '8' {
        8
    } else if c == '9' {
        9
    } else {
        10
    }
}

/// The decimal text of a natural number, without leading zeros.
pub open spec fn decimal(n: nat) -> Seq<char>
    decreases n,
{
    if n < 10 {
        seq![digit_char(n as int)]
    } else {
        decimal(n / 10).push(digit_char((n % 10) as int))
    }
}

/// The decimal text of a whole number, with `-` before a negative one.
pub open spec fn signed_decimal(n: int) -> Seq<char> {
    if n < 0 {
        seq!['-'] + decimal((-n) as nat)
    } else {
        decimal(n as nat)
    }
}

/// Every character of the text is a decimal digit.
pub open spec fn all_digits(s: Seq<char>) -> bool {
    forall|i: int| 0 <= i < s.len() ==> digit_value(#[trigger] s[i]) < 10
}

/// The number that a text of digits stands for.
pub open spec fn digits_value(s: Seq<char>) -> nat
    decreases s.len(),
{
    if s.len() == 0 {
        0
    } else {
        (10 * digits_value(s.drop_last()) + digit_value(s.last())) as nat
    }
}

fn digit_of(d: u64) -> (r: char)
    requires
        d < 10,
    ensures
        r == digit_char(d as int),
{
    if d == 0 {
        '0'
    } else if d == 1 {
        '1'
    } else if d == 2 {
        '2'
    } else if d == 3 {
        '3'
    } else if d == 4 {
        '4'
    } else if d == 5 {
        '5'
    } else if d == 6 {
        '6'
    } else if d == 7 {
        '7'
    } else if d == 8 {
        '8'
    } else {
        '9'
    }
}

fn value_of(c: char) -> (r: u64)
    ensures
        r == digit_value(c),
{
    if c == '0' {
        0
    } else if c == '1' {
        1
    } else if c == '2' {
        2
    } else if c == '3' {
        3
    } else if c == '4' {
        4
    } else if c == '5' {
        5
    } else if c == '6' {
        6
    } else if c == '7' {
        7
    } else if c == '8' {
        8
    } else if c == '9' {
        9
    } else {
        10
    }
}

/// The decimal text of a number.
pub fn u64_to_chars(n: u64) -> (r: Vec<char>)
    ensures
        r@ == decimal(n as nat),
    decreases n,
{
    if n < 10 {
        let mut out: Vec<char> = Vec::new();
        out.push(digit_of(n));
        out
    } else {
        let mut out = u64_to_chars(n / 10);
        out.push(digit_of(n % 10));
        out
    }
}

/// The decimal text of a signed number.
pub fn i64_to_chars(n: i64) -> (r: Vec<char>)
    ensures
        r@ == signed_decimal(n as int),
{
    if n < 0 {
        let magnitude: u64 = if n == i64::MIN {
            9223372036854775808u64
        } else {
            (-n) as u64
        };
        let digits = u64_to_chars(magnitude);
        let mut out: Vec<char> = Vec::new();
        out.push('-');
        crate::text::append_chars(&mut out, &digits);
        out
    } else {
        u64_to_chars(n as u64)
    }
}

/// The number that a text stands for, if the text is made of digits, is not
/// empty, and the number does not exceed `limit`.
pub open spec fn number_within(s: Seq<char>, limit: u64) -> Option<u64> {
    if s.len() > 0 && all_digits(s) && digits_value(s) <= limit {
        Some(digits_value(s) as u64)
    } else {
        None
    }
}

/// The value of a text of digits does not shrink when digits are added.
pub proof fn lemma_digits_grow(s: Seq<char>, i: int)
    requires
        all_digits(s),
        0 <= i <= s.len(),
    ensures
        digits_value(s.take(i)) <= digits_value(s),
    decreases s.len() - i,
{
    if i < s.len() {
        let next = s.take(i + 1);
        assert(next.drop_last() == s.take(i));
        assert(next.last() == s[i]);
        lemma_digits_grow(s, i + 1);
    } else {
        assert(s.take(i) == s);
    }
}

/// Reads a text of digits as a number that does not exceed `limit`.
pub fn parse_number(s: &Vec<char>, limit: u64) -> (r: Option<u64>)
    ensures
        r == number_within(s@, limit),
{
    if s.len() == 0 {
        return None;
    }
    let mut value: u64 = 0;
    let mut i: usize = 0;
    assert(s@.take(0).len() == 0);
    while i < s.len()
        invariant
            i <= s.len(),
            forall|k: int| 0 <= k < i ==> digit_value(#[trigger] s@[k]) < 10,
            value == digits_value(s@.take(i as int)),
            value <= limit,
        decreases s.len() - i,
    {
        let d = value_of(s[i]);
        if d >= 10 {
            return None;
        }
        proof {
            let next = s@.take(i + 1);
            assert(next.drop_last() == s@.take(i as int));
            assert(next.last() == s@[i as int]);
        }
        if d > limit || value > (limit - d) / 10 {
            proof {
                if d <= limit {
                    assert(10 * value + d > limit) by (nonlinear_arith)
                        requires
                            value > (limit - d) / 10,
                            d <= limit,
                            0 <= d,
                            0 <= value,
                    ;
                }
                if all_digits(s@) {
                    lemma_digits_grow(s@, i + 1);
                }
            }
            return None;
        }
        assert(10 * value + d <= limit) by (nonlinear_arith)
            requires
                value <= (limit - d) / 10,
                d <= limit,
                0 <= d,
        ;
        value = 10 * value + d;
        i = i + 1;
    }
    assert(s@.take(s.len() as int) == s@);
    Some(value)
}

/// The last `width` decimal digits of a number, with zeros for those it
/// does not have.
pub open spec fn padded(n: nat, width: nat) -> Seq<char>
    decreases width,
{
    if width == 0 {
        Seq::empty()
    } else {
        padded(n / 10, (width - 1) as nat).push(digit_char((n % 10) as int))
    }
}

/// The text by which points in time are ordered: twenty digits for the
/// seconds counted from the earliest point that can be given.
pub open spec fn timestamp_text(t: i64) -> Seq<char> {
    padded((t + 9223372036854775808) as nat, 20)
}

/// The last `width` decimal digits of a number.
pub fn padded_chars(n: u64, width: usize) -> (r: Vec<char>)
    ensures
        r@ == padded(n as nat, width as nat),
    decreases width,
{
    if width == 0 {
        Vec::new()
    } else {
        let mut out = padded_chars(n / 10, width - 1);
        out.push(digit_of(n % 10));
        out
    }
}

/// The text by which a point in time is ordered.
pub fn timestamp_chars(t: i64) -> (r: Vec<char>)
    ensures
        r@ == timestamp_text(t),
{
    let shifted: u64 = if t < 0 {
        (t + 9223372036854775807 + 1) as u64
    } else {
        t as u64 + 9223372036854775808u64
    };
    padded_chars(shifted, 20)
}

/// Whether every character of a text is a decimal digit.
pub fn is_all_digits(s: &Vec<char>) -> (r: bool)
    ensures
        r == all_digits(s@),
{
    let mut i: usize = 0;
    while i < s.len()
        invariant
            i <= s.len(),
            forall|k: int| 0 <= k < i ==> digit_value(#[trigger] s@[k]) < 10,
        decreases s.len() - i,
    {
        if value_of(s[i]) >= 10 {
            return false;
        }
        i = i + 1;
    }
    true
}

/// Ten to the power of `w`.
pub open spec fn pow10(w: nat) -> nat
    decreases w,
{
    if w == 0 {
        1
    } else {
        10 * pow10((w - 1) as nat)
    }
}

/// A padded text has the width asked for.
pub proof fn lemma_padded_len(n: nat, width: nat)
    ensures
        padded(n, width).len() == width,
    decreases width,
{
    if width > 0 {
        lemma_padded_len(n / 10, (width - 1) as nat);
    }
}

/// Of two texts of the same length with one more character each, the
/// order is that of the texts if they differ and that of the characters if
/// they do not.
pub proof fn lemma_order_of_push(s: Seq<char>, t: Seq<char>, c: char, d: char)
    requires
        s.len() == t.len(),
    ensures
        lex_le(s.push(c), t.push(d)) == (if s == t {
            c <= d
        } else {
            lex_le(s, t)
        }),
    decreases s.len(),
{
    let a = s.push(c);
    let b = t.push(d);
    if s.len() == 0 {
        assert(s =~= t);
        assert(a.drop_first().len() == 0);
        assert(a[0] == c && b[0] == d);
        assert(lex_le(a.drop_first(), b.drop_first()));
        assert(lex_le(a, b) == (c <= d));
    } else {
        let sd = s.drop_first();
        let td = t.drop_first();
        assert(a[0] == s[0] && b[0] == t[0]);
        assert(a.drop_first() =~= sd.push(c));
        assert(b.drop_first() =~= td.push(d));
        lemma_order_of_push(sd, td, c, d);
        if s[0] == t[0] {
            assert(lex_le(a, b) == lex_le(sd.push(c), td.push(d)));
            assert(lex_le(s, t) == lex_le(sd, td));
            if sd == td {
                assert(s =~= seq![s[0]] + sd);
                assert(t =~= seq![t[0]] + td);
                assert(s == t);
            } else {
                assert(s != t);
            }
        } else {
            assert(s != t);
            assert(lex_le(a, b) == (a[0] < b[0]));
            assert(lex_le(s, t) == (s[0] < t[0]));
        }
    }
}

/// Padded texts of the same width are ordered as the numbers are, and are
/// equal only for equal numbers, as long as the numbers fit the width.
pub proof fn lemma_padded_order(x: nat, y: nat, width: nat)
    requires
        x < pow10(width),
        y < pow10(width),
    ensures
        lex_le(padded(x, width), padded(y, width)) == (x <= y),
        (padded(x, width) == padded(y, width)) == (x == y),
    decreases width,
{
    if width > 0 {
        let w = (width - 1) as nat;
        let (xh, xl) = (x / 10, x % 10);
        let (yh, yl) = (y / 10, y % 10);
        assert(xh < pow10(w) && yh < pow10(w));
        lemma_padded_order(xh, yh, w);
        lemma_padded_len(xh, w);
        lemma_padded_len(yh, w);
        let s = padded(xh, w);
        let t = padded(yh, w);
        let c = digit_char(xl as int);
        let d = digit_char(yl as int);
        lemma_order_of_push(s, t, c, d);
        assert((c <= d) == (xl <= yl));
        assert((c == d) == (xl == yl));
        assert(x == 10 * xh + xl && y == 10 * yh + yl);
        if s.push(c) == t.push(d) {
            assert(s.push(c).drop_last() == s);
            assert(t.push(d).drop_last() == t);
            assert(s.push(c).last() == c);
            assert(t.push(d).last() == d);
        }
    }
}

/// The texts by which points in time are ordered are in the order of the
/// points in time.
pub proof fn lemma_timestamp_order(a: i64, b: i64)
    ensures
        lex_le(timestamp_text(a), timestamp_text(b)) == (a <= b),
        (timestamp_text(a) == timestamp_text(b)) == (a == b),
{
    reveal_with_fuel(pow10, 21);
    assert(pow10(20) == 100000000000000000000nat);
    lemma_padded_order((a + 9223372036854775808) as nat, (b + 9223372036854775808) as nat, 20);
}

} // verus!
