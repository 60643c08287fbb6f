//! Characters and character sequences: white space, digits, trimming and the
//! small readers the input grammar is made of.
//!
//! A reader looks at a sequence from a position on and answers with what it
//! read and the position behind it, or with nothing.

use vstd::prelude::*;

verus! {

/// White space as Unicode defines it (the property `White_Space`).
pub open spec fn is_space(c: char) -> bool {
    ||| '\u{9}' <= c <= '\u{d}'
    ||| c == ' '
    ||| c == '\u{85}'
    ||| c == '\u{a0}'
    ||| c == '\u{1680}'
    ||| '\u{2000}' <= c <= '\u{200a}'
    ||| c == '\u{2028}'
    ||| c == '\u{2029}'
    ||| c == '\u{202f}'
    ||| c == '\u{205f}'
    ||| c == '\u{3000}'
}

/// One of the ten digits `0` to `9`.
pub open spec fn is_digit(c: char) -> bool {
    '0' <= c <= '9'
}

/// The value of a digit.
pub open spec fn digit_value(c: char) -> int {
    c as int - '0' as int
}

/// Length of the longest run of digits that starts at `at`.
pub open spec fn digit_run(s: Seq<char>, at: int) -> int
    decreases s.len() - at,
{
    if 0 <= at < s.len() && is_digit(s[at]) {
        1 + digit_run(s, at + 1)
    } else {
        0
    }
}

/// Length of the longest run of white space that starts at `at`.
pub open spec fn space_run(s: Seq<char>, at: int) -> int
    decreases s.len() - at,
{
    if 0 <= at < s.len() && is_space(s[at]) {
        1 + space_run(s, at + 1)
    } else {
        0
    }
}

/// Length of the longest run of white space that ends before `upto`.
pub open spec fn space_run_back(s: Seq<char>, upto: int) -> int
    decreases upto,
{
    if 0 < upto <= s.len() && is_space(s[upto - 1]) {
        1 + space_run_back(s, upto - 1)
    } else {
        0
    }
}

/// The decimal number written by the `len` characters from `from` on.
pub open spec fn decimal_value(s: Seq<char>, from: int, len: int) -> int
    decreases len,
{
    if len <= 0 {
        0
    } else {
        decimal_value(s, from, len - 1) * 10 + digit_value(s[from + len - 1])
    }
}

/// Where the trimmed part of `s[from..to]` begins.
pub open spec fn trim_begin(s: Seq<char>, from: int, to: int) -> int {
    if from + space_run(s, from) >= to {
        to
    } else {
        from + space_run(s, from)
    }
}

/// Where the trimmed part of `s[from..to]` ends.
pub open spec fn trim_end(s: Seq<char>, from: int, to: int) -> int {
    if from + space_run(s, from) >= to {
        to
    } else {
        to - space_run_back(s, to)
    }
}

/// `s[from..to]` without the white space at its two ends.
pub open spec fn trimmed_range(s: Seq<char>, from: int, to: int) -> Seq<char> {
    s.subrange(trim_begin(s, from, to), trim_end(s, from, to))
}

/// `s` without the white space at its two ends.
pub open spec fn trimmed(s: Seq<char>) -> Seq<char> {
    trimmed_range(s, 0, s.len() as int)
}

/// What a reader read, and the position behind it.
pub struct Read<T> {
    pub value: T,
    pub end: int,
}

/// A number of `min` to `max` digits at `at`, with no further digit behind
/// it.
pub open spec fn read_number(s: Seq<char>, at: int, min: int, max: int) -> Option<Read<int>> {
    let n = digit_run(s, at);
    if min <= n <= max {
        Some(Read { value: decimal_value(s, at, n), end: at + n })
    } else {
        None
    }
}

/// The character `c` at `at`: the position behind it.
pub open spec fn read_char(s: Seq<char>, at: int, c: char) -> Option<int> {
    if 0 <= at < s.len() && s[at] == c {
        Some(at + 1)
    } else {
        None
    }
}

/// One white-space character at `at`: the position behind it.
pub open spec fn read_space(s: Seq<char>, at: int) -> Option<int> {
    if 0 <= at < s.len() && is_space(s[at]) {
        Some(at + 1)
    } else {
        None
    }
}

/// All the white space at `at`, at least one character: the position behind
/// it.
pub open spec fn read_spaces(s: Seq<char>, at: int) -> Option<int> {
    if space_run(s, at) >= 1 {
        Some(at + space_run(s, at))
    } else {
        None
    }
}

/// A run of white space ends inside the sequence.
pub proof fn lemma_space_run_bounds(s: Seq<char>, at: int)
    requires
        0 <= at <= s.len(),
    ensures
        0 <= space_run(s, at) <= s.len() - at,
    decreases s.len() - at,
{
    if at < s.len() && is_space(s[at]) {
        lemma_space_run_bounds(s, at + 1);
    }
}

/// A run of white space read backwards ends inside the sequence.
pub proof fn lemma_space_run_back_bounds(s: Seq<char>, upto: int)
    requires
        0 <= upto <= s.len(),
    ensures
        0 <= space_run_back(s, upto) <= upto,
    decreases upto,
{
    if 0 < upto && is_space(s[upto - 1]) {
        lemma_space_run_back_bounds(s, upto - 1);
    }
}

/// Ten to the power `n`, for `n` up to nine.
pub open spec fn pow10(n: int) -> int
    decreases n,
{
    if n <= 0 {
        1
    } else {
        10 * pow10(n - 1)
    }
}

/// Every character of a run of digits is a digit.
pub proof fn lemma_digit_run_digits(s: Seq<char>, at: int)
    requires
        0 <= at <= s.len(),
    ensures
        forall|k: int| at <= k < at + digit_run(s, at) ==> is_digit(#[trigger] s[k]),
    decreases s.len() - at,
{
    if at < s.len() && is_digit(s[at]) {
        lemma_digit_run_digits(s, at + 1);
    }
}

/// The trimmed part of a range lies inside the range, and neither begins nor
/// ends with white space.
pub proof fn lemma_trim_bounds(s: Seq<char>, from: int, to: int)
    requires
        0 <= from <= to <= s.len(),
    ensures
        from <= trim_begin(s, from, to) <= trim_end(s, from, to) <= to,
        trim_begin(s, from, to) < trim_end(s, from, to) ==> !is_space(
            s[trim_begin(s, from, to)],
        ) && !is_space(s[trim_end(s, from, to) - 1]),
{
    lemma_space_run_bounds(s, from);
    lemma_space_run_back_bounds(s, to);
    let a = from + space_run(s, from);
    if a < to {
        lemma_space_run_stops(s, from);
        lemma_space_run_back_stops(s, to);
        lemma_space_run_back_limit(s, to, a);
    }
}

/// The character behind a run of white space is no white space.
pub proof fn lemma_space_run_stops(s: Seq<char>, at: int)
    requires
        0 <= at <= s.len(),
    ensures
        at + space_run(s, at) < s.len() ==> !is_space(s[at + space_run(s, at)]),
        forall|k: int| at <= k < at + space_run(s, at) ==> is_space(#[trigger] s[k]),
    decreases s.len() - at,
{
    if at < s.len() && is_space(s[at]) {
        lemma_space_run_stops(s, at + 1);
    }
}

/// The character before a backward run of white space is no white space.
pub proof fn lemma_space_run_back_stops(s: Seq<char>, upto: int)
    requires
        0 <= upto <= s.len(),
    ensures
        upto - space_run_back(s, upto) > 0 ==> !is_space(s[upto - space_run_back(s, upto) - 1]),
    decreases upto,
{
    if 0 < upto && is_space(s[upto - 1]) {
        lemma_space_run_back_stops(s, upto - 1);
    }
}

/// A backward run of white space stops behind a character that is none.
pub proof fn lemma_space_run_back_limit(s: Seq<char>, upto: int, solid: int)
    requires
        0 <= solid < upto <= s.len(),
        !is_space(s[solid]),
    ensures
        upto - space_run_back(s, upto) > solid,
    decreases upto,
{
    if is_space(s[upto - 1]) {
        lemma_space_run_back_limit(s, upto - 1, solid);
    }
}

/// The characters of `s`, in order.
pub fn chars_of(s: &str) -> (out: Vec<char>)
    ensures
        out@ == s@,
{
    let mut out: Vec<char> = Vec::new();
    for c in it: s.chars()
        invariant
            out@ == it.seq().take(it.index()),
            it.seq() == s@,
    {
        out.push(c);
    }
    out
}

/// Whether `c` is white space.
pub fn check_space(c: char) -> (yes: bool)
    ensures
        yes == is_space(c),
{
    ('\u{9}' <= c && c <= '\u{d}') || c == ' ' || c == '\u{85}' || c == '\u{a0}' || c
        == '\u{1680}' || ('\u{2000}' <= c && c <= '\u{200a}') || c == '\u{2028}' || c
        == '\u{2029}' || c == '\u{202f}' || c == '\u{205f}' || c == '\u{3000}'
}

/// Whether `c` is a digit.
pub fn check_digit(c: char) -> (yes: bool)
    ensures
        yes == is_digit(c),
{
    '0' <= c && c <= '9'
}

/// Length of the run of digits at `at`.
pub fn count_digits(chars: &Vec<char>, at: usize) -> (n: usize)
    requires
        at <= chars.len(),
    ensures
        n as int == digit_run(chars@, at as int),
        at + n <= chars.len(),
{
    let mut i: usize = at;
    while i < chars.len() && check_digit(chars[i])
        invariant
            at <= i <= chars.len(),
            digit_run(chars@, at as int) == (i - at) + digit_run(chars@, i as int),
        decreases chars.len() - i,
    {
        i += 1;
    }
    i - at
}

/// Length of the run of white space at `at`.
pub fn count_spaces(chars: &Vec<char>, at: usize) -> (n: usize)
    requires
        at <= chars.len(),
    ensures
        n as int == space_run(chars@, at as int),
        at + n <= chars.len(),
{
    let mut i: usize = at;
    while i < chars.len() && check_space(chars[i])
        invariant
            at <= i <= chars.len(),
            space_run(chars@, at as int) == (i - at) + space_run(chars@, i as int),
        decreases chars.len() - i,
    {
        i += 1;
    }
    i - at
}

/// Length of the run of white space that ends before `upto`.
pub fn count_spaces_back(chars: &Vec<char>, upto: usize) -> (n: usize)
    requires
        upto <= chars.len(),
    ensures
        n as int == space_run_back(chars@, upto as int),
        n <= upto,
{
    let mut i: usize = upto;
    while i > 0 && check_space(chars[i - 1])
        invariant
            i <= upto <= chars.len(),
            space_run_back(chars@, upto as int) == (upto - i) + space_run_back(chars@, i as int),
        decreases i,
    {
        i -= 1;
    }
    upto - i
}

/// The bounds of `chars[from..to]` without the white space at its two ends.
pub fn trim_bounds(chars: &Vec<char>, from: usize, to: usize) -> (bounds: (usize, usize))
    requires
        from <= to <= chars.len(),
    ensures
        bounds.0 as int == trim_begin(chars@, from as int, to as int),
        bounds.1 as int == trim_end(chars@, from as int, to as int),
        from <= bounds.0 <= bounds.1 <= to,
{
    proof {
        lemma_trim_bounds(chars@, from as int, to as int);
    }
    let lead = count_spaces(chars, from);
    if from + lead >= to {
        return (to, to);
    }
    let trail = count_spaces_back(chars, to);
    (from + lead, to - trail)
}

/// Reads a number of `min` to `max` digits at `at`.
pub fn scan_number(chars: &Vec<char>, at: usize, min: usize, max: usize) -> (out: Option<
    (u32, usize),
>)
    requires
        at <= chars.len(),
        max <= 9,
    ensures
        match out {
            Some((value, end)) => read_number(chars@, at as int, min as int, max as int) == Some(
                Read { value: value as int, end: end as int },
            ) && at <= end <= chars.len() && value < pow10(max as int),
            None => read_number(chars@, at as int, min as int, max as int) is None,
        },
{
    let n = count_digits(chars, at);
    if n < min || n > max {
        return None;
    }
    proof {
        lemma_digit_run_digits(chars@, at as int);
    }
    let mut value: u32 = 0;
    let mut i: usize = 0;
    while i < n
        invariant
            i <= n <= 9,
            at + n <= chars.len(),
            value as int == decimal_value(chars@, at as int, i as int),
            0 <= value < pow10(i as int),
            forall|k: int| at <= k < at + n ==> is_digit(#[trigger] chars@[k]),
        decreases n - i,
    {
        let c = chars[at + i];
        proof {
            lemma_pow10_grows(i as int + 1, 9);
        }
        value = value * 10 + (c as u32 - '0' as u32);
        i += 1;
    }
    proof {
        lemma_pow10_grows(n as int, max as int);
    }
    Some((value, at + n))
}

/// Powers of ten are positive and grow with the exponent; the ninth is a
/// thousand million.
pub proof fn lemma_pow10_grows(low: int, high: int)
    requires
        0 <= low <= high,
    ensures
        1 <= pow10(low) <= pow10(high),
        pow10(9) == 1_000_000_000,
    decreases high,
{
    reveal_with_fuel(pow10, 12);
    if high > 0 {
        if low < high {
            lemma_pow10_grows(low, high - 1);
        } else {
            lemma_pow10_grows(low - 1, high - 1);
        }
    }
}

/// Reads the character `c` at `at`.
pub fn scan_char(chars: &Vec<char>, at: usize, c: char) -> (out: Option<usize>)
    requires
        at <= chars.len(),
    ensures
        match out {
            Some(end) => read_char(chars@, at as int, c) == Some(end as int) && end <= chars.len(),
            None => read_char(chars@, at as int, c) is None,
        },
{
    if at < chars.len() && chars[at] == c {
        Some(at + 1)
    } else {
        None
    }
}

/// Reads one white-space character at `at`.
pub fn scan_space(chars: &Vec<char>, at: usize) -> (out: Option<usize>)
    requires
        at <= chars.len(),
    ensures
        match out {
            Some(end) => read_space(chars@, at as int) == Some(end as int) && end <= chars.len(),
            None => read_space(chars@, at as int) is None,
        },
{
    if at < chars.len() && check_space(chars[at]) {
        Some(at + 1)
    } else {
        None
    }
}

/// Reads all the white space at `at`, at least one character.
pub fn scan_spaces(chars: &Vec<char>, at: usize) -> (out: Option<usize>)
    requires
        at <= chars.len(),
    ensures
        match out {
            Some(end) => read_spaces(chars@, at as int) == Some(end as int) && end <= chars.len(),
            None => read_spaces(chars@, at as int) is None,
        },
{
    let n = count_spaces(chars, at);
    if n >= 1 {
        Some(at + n)
    } else {
        None
    }
}

/// Appends one character to a string (`String::push` of the standard
/// library): the string afterwards is the string before with `c` at its end.
#[verifier::external_body]
pub(crate) fn push_char(s: &mut String, c: char)
    ensures
        final(s)@ == old(s)@.push(c),
{
    s.push(c);
}

/// The characters `from..to` of `input` as a string of their own.
pub fn slice_string(input: &str, from: usize, to: usize) -> (out: String)
    requires
        from <= to <= input@.len(),
    ensures
        out@ == input@.subrange(from as int, to as int),
{
    String::from_str(input.substring_char(from, to))
}

/// The characters as a string.
pub fn string_of(chars: &Vec<char>) -> (out: String)
    ensures
        out@ == chars@,
{
    let mut out = String::new();
    let mut i: usize = 0;
    while i < chars.len()
        invariant
            i <= chars.len(),
            out@ == chars@.take(i as int),
        decreases chars.len() - i,
    {
        push_char(&mut out, chars[i]);
        assert(chars@.take(i as int).push(chars@[i as int]) == chars@.take(i + 1));
        i += 1;
    }
    assert(chars@.take(chars.len() as int) == chars@);
    out
}

} // verus!
