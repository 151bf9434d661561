//! Which inputs the header reader can be handed.
//!
//! The header of a PLY file is text: one statement per line, up to a line
//! that starts with `end_header`. Two kinds of line carry numbers that the
//! reader takes for 64-bit integers: `format`, with the two parts of a version
//! number on either side of a dot, and `element`, with the number of records.
//! Each of these numbers stands directly behind a space, a tab or the dot.
//! The reader of `ply_rs` stops abruptly on such a number that does not fit in
//! 64 bits, so the loader looks for one before it calls the reader.
//! [`numbers_fit`] says which inputs hold none, and [`check_numbers`] decides
//! it. A header that holds one is a header that the reader cannot read; every
//! header that the reader can read passes.

use vstd::prelude::*;

verus! {

/// Line feed, which ends a line.
pub const NEWLINE: u8 = 0x0a;

/// The space character.
pub const SPACE: u8 = 0x20;

/// The horizontal tab.
pub const TAB: u8 = 0x09;

/// The full stop between the two parts of a version number.
pub const DOT: u8 = 0x2e;

/// The digit `0`.
pub const DIGIT_ZERO: u8 = 0x30;

/// The digit `9`.
pub const DIGIT_NINE: u8 = 0x39;

/// The bytes of the word `format`.
pub const FORMAT: [u8; 6] = [0x66, 0x6f, 0x72, 0x6d, 0x61, 0x74];

/// The bytes of the word `element`.
pub const ELEMENT: [u8; 7] = [0x65, 0x6c, 0x65, 0x6d, 0x65, 0x6e, 0x74];

/// The bytes of the word `end_header`.
pub const END_HEADER: [u8; 10] = [0x65, 0x6e, 0x64, 0x5f, 0x68, 0x65, 0x61, 0x64, 0x65, 0x72];

/// Whether `b` is a decimal digit.
pub open spec fn is_digit(b: u8) -> bool {
    DIGIT_ZERO <= b <= DIGIT_NINE
}

/// Whether `b` is one of the bytes that a number of a `format` or `element`
/// line comes directly after: a space, a tab or a dot.
pub open spec fn is_separator(b: u8) -> bool {
    b == SPACE || b == TAB || b == DOT
}

/// Whether the bytes of `word` stand in `s` from position `at` on.
pub open spec fn word_at(s: Seq<u8>, at: int, word: Seq<u8>) -> bool {
    0 <= at && at + word.len() <= s.len() && s.subrange(at, at + word.len()) =~= word
}

/// Whether a line starts at position `at`: at the first byte of `s`, or
/// directly behind a line feed.
pub open spec fn line_start(s: Seq<u8>, at: int) -> bool {
    0 <= at < s.len() && (at == 0 || s[at - 1] == NEWLINE)
}

/// Whether no line feed stands at the positions from `from` up to `to`,
/// `to` left out.
pub open spec fn unbroken(s: Seq<u8>, from: int, to: int) -> bool {
    forall|k: int| from <= k < to ==> #[trigger] s[k] != NEWLINE
}

/// Whether position `at` is on the line that starts at `line`.
pub open spec fn on_line(s: Seq<u8>, line: int, at: int) -> bool {
    line <= at < s.len() && unbroken(s, line, at)
}

/// Whether the header can reach as far as position `line`: no line that
/// starts before it starts with `end_header`.
pub open spec fn in_header(s: Seq<u8>, line: int) -> bool {
    forall|j: int| 0 <= j < line && #[trigger] line_start(s, j) ==> !word_at(s, j, END_HEADER@)
}

/// Whether a line of the header starts at `line` with `format` or `element`.
pub open spec fn numeric_line(s: Seq<u8>, line: int) -> bool {
    line_start(s, line) && in_header(s, line) && (word_at(s, line, FORMAT@) || word_at(
        s,
        line,
        ELEMENT@,
    ))
}

/// Whether a number starts at position `at`: a digit directly behind a
/// separator.
pub open spec fn number_start(s: Seq<u8>, at: int) -> bool {
    0 < at < s.len() && is_digit(s[at]) && is_separator(s[at - 1])
}

/// The position behind the digits that stand in `s` from `at` on.
pub open spec fn digits_end(s: Seq<u8>, at: int) -> int
    decreases s.len() - at,
{
    if 0 <= at < s.len() && is_digit(s[at]) {
        digits_end(s, at + 1)
    } else {
        at
    }
}

/// The number that a digit stands for; 0 for any other byte.
pub open spec fn digit_value(b: u8) -> nat {
    if is_digit(b) {
        (b - DIGIT_ZERO) as nat
    } else {
        0
    }
}

/// The number that a sequence of decimal digits stands for, the first digit
/// counting most.
pub open spec fn decimal_value(digits: Seq<u8>) -> nat
    decreases digits.len(),
{
    if digits.len() == 0 {
        0
    } else {
        decimal_value(digits.drop_last()) * 10 + digit_value(digits.last())
    }
}

/// The number written in `s` by the digits from `at` on.
pub open spec fn number_at(s: Seq<u8>, at: int) -> nat {
    decimal_value(s.subrange(at, digits_end(s, at)))
}

/// Whether every number on a `format` or `element` line of the header fits in
/// 64 bits.
pub open spec fn numbers_fit(s: Seq<u8>) -> bool {
    forall|line: int, at: int|
        numeric_line(s, line) && #[trigger] on_line(s, line, at) && number_start(s, at)
            ==> number_at(s, at) <= u64::MAX
}

/// The digits from `at` on end between `at` and the end of `s`, with a digit
/// at every position up to there and none at the end itself.
pub proof fn lemma_digits_end(s: Seq<u8>, at: int)
    requires
        0 <= at <= s.len(),
    ensures
        at <= digits_end(s, at) <= s.len(),
        forall|k: int| at <= k < digits_end(s, at) ==> is_digit(#[trigger] s[k]),
        digits_end(s, at) < s.len() ==> !is_digit(s[digits_end(s, at)]),
    decreases s.len() - at,
{
    if at < s.len() && is_digit(s[at]) {
        lemma_digits_end(s, at + 1);
    }
}

/// A further digit multiplies the number by ten and adds the digit.
pub proof fn lemma_decimal_value_step(s: Seq<u8>, from: int, to: int)
    requires
        0 <= from <= to < s.len(),
    ensures
        decimal_value(s.subrange(from, to + 1)) == decimal_value(s.subrange(from, to)) * 10
            + digit_value(s[to]),
{
    let longer = s.subrange(from, to + 1);
    assert(longer.drop_last() =~= s.subrange(from, to));
    assert(longer.last() == s[to]);
}

/// Further digits never make the number smaller.
pub proof fn lemma_decimal_value_grows(s: Seq<u8>, from: int, mid: int, to: int)
    requires
        0 <= from <= mid <= to <= s.len(),
    ensures
        decimal_value(s.subrange(from, mid)) <= decimal_value(s.subrange(from, to)),
    decreases to - mid,
{
    if mid < to {
        lemma_decimal_value_grows(s, from, mid, to - 1);
        lemma_decimal_value_step(s, from, to - 1);
    }
}

/// Whether `word` stands in `input` from position `at` on.
pub fn word_is_at(input: &[u8], at: usize, word: &[u8]) -> (found: bool)
    ensures
        found == word_at(input@, at as int, word@),
{
    if at > input.len() || word.len() > input.len() - at {
        return false;
    }
    let mut k: usize = 0;
    while k < word.len()
        invariant
            k <= word.len(),
            at + word.len() <= input.len(),
            forall|j: int| 0 <= j < k ==> input@[at + j] == word@[j],
        decreases word.len() - k,
    {
        if input[at + k] != word[k] {
            proof {
                let part = input@.subrange(at as int, at + word.len());
                assert(part[k as int] == input@[at + k]);
            }
            return false;
        }
        k += 1;
    }
    assert(input@.subrange(at as int, at + word.len()) =~= word@);
    true
}

/// Whether the number written in `input` by the digits from `at` on fits in
/// 64 bits. A position behind the end of `input` has no digits, which fits.
pub fn number_fits(input: &[u8], at: usize) -> (fits: bool)
    ensures
        fits == (at > input.len() || number_at(input@, at as int) <= u64::MAX),
{
    if at > input.len() {
        return true;
    }
    let ghost s = input@;
    let mut value: u64 = 0;
    let mut k: usize = at;
    proof {
        lemma_digits_end(s, at as int);
    }
    while k < input.len() && DIGIT_ZERO <= input[k] && input[k] <= DIGIT_NINE
        invariant
            s == input@,
            at <= k <= input.len(),
            digits_end(s, k as int) == digits_end(s, at as int),
            value == decimal_value(s.subrange(at as int, k as int)),
        decreases input.len() - k,
    {
        let digit: u64 = (input[k] - DIGIT_ZERO) as u64;
        proof {
            lemma_decimal_value_step(s, at as int, k as int);
            lemma_digits_end(s, k as int + 1);
        }
        if value > (u64::MAX - digit) / 10 {
            proof {
                lemma_decimal_value_grows(s, at as int, k as int + 1, digits_end(s, at as int));
            }
            return false;
        }
        value = value * 10 + digit;
        k += 1;
    }
    true
}

/// Whether every number on a `format` or `element` line of the header of
/// `input` fits in 64 bits.
pub fn check_numbers(input: &[u8]) -> (ok: bool)
    ensures
        ok == numbers_fit(input@),
{
    let ghost s = input@;
    let mut line: usize = 0;
    while line < input.len()
        invariant
            s == input@,
            line <= input.len(),
            line < input.len() ==> line_start(s, line as int),
            in_header(s, line as int),
            forall|l: int, at: int|
                l < line && numeric_line(s, l) && #[trigger] on_line(s, l, at) && number_start(
                    s,
                    at,
                ) ==> number_at(s, at) <= u64::MAX,
        decreases input.len() - line,
    {
        if word_is_at(input, line, &END_HEADER) {
            proof {
                assert forall|l: int, at: int|
                    numeric_line(s, l) && #[trigger] on_line(s, l, at) && number_start(
                        s,
                        at,
                    ) implies number_at(s, at) <= u64::MAX by {
                    if l == line {
                        lemma_words_differ(s, l);
                    } else if l > line {
                        assert(line_start(s, line as int));
                    }
                }
            }
            return true;
        }
        let numeric = word_is_at(input, line, &FORMAT) || word_is_at(input, line, &ELEMENT);
        let mut at: usize = line;
        while at < input.len() && input[at] != NEWLINE
            invariant
                s == input@,
                line <= at <= input.len(),
                line < input.len(),
                unbroken(s, line as int, at as int),
                line_start(s, line as int),
                in_header(s, line as int),
                numeric == (word_at(s, line as int, FORMAT@) || word_at(s, line as int, ELEMENT@)),
                forall|p: int|
                    line <= p < at && numeric && #[trigger] number_start(s, p) ==> number_at(s, p)
                        <= u64::MAX,
            decreases input.len() - at,
        {
            if numeric && at > 0 && DIGIT_ZERO <= input[at] && input[at] <= DIGIT_NINE && (input[at
                - 1] == SPACE || input[at - 1] == TAB || input[at - 1] == DOT) {
                if !number_fits(input, at) {
                    proof {
                        assert(numeric_line(s, line as int));
                        assert(on_line(s, line as int, at as int));
                        assert(number_start(s, at as int));
                    }
                    return false;
                }
            }
            at += 1;
        }
        let next: usize = if at < input.len() {
            at + 1
        } else {
            at
        };
        proof {
            assert forall|j: int| 0 <= j < next && #[trigger] line_start(s, j) implies !word_at(
                s,
                j,
                END_HEADER@,
            ) by {
                if line < j {
                    assert(s[j - 1] != NEWLINE);
                }
            }
            assert forall|l: int, p: int|
                l < next && numeric_line(s, l) && #[trigger] on_line(s, l, p) && number_start(
                    s,
                    p,
                ) implies number_at(s, p) <= u64::MAX by {
                if l == line && p > at {
                    assert(s[at as int] != NEWLINE);
                } else if l > line {
                    assert(s[l - 1] != NEWLINE);
                }
            }
        }
        line = next;
    }
    true
}

/// A line that starts with `end_header` starts neither with `format` nor with
/// `element`.
proof fn lemma_words_differ(s: Seq<u8>, at: int)
    requires
        word_at(s, at, END_HEADER@),
    ensures
        !word_at(s, at, FORMAT@),
        !word_at(s, at, ELEMENT@),
{
    let end = s.subrange(at, at + END_HEADER@.len());
    assert(end[0] == s[at] && end[1] == s[at + 1]);
    if word_at(s, at, FORMAT@) {
        let word = s.subrange(at, at + FORMAT@.len());
        assert(word[0] == s[at]);
    }
    if word_at(s, at, ELEMENT@) {
        let word = s.subrange(at, at + ELEMENT@.len());
        assert(word[1] == s[at + 1]);
    }
}

} // verus!
