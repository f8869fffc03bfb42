//! Text: what the library needs of `str` and `String` beyond what is built in,
//! texts of a given width, and decimal numbers written out with leading zeros.

use crate::seqs::first_place;
use vstd::prelude::*;
use vstd::string::{StrSliceExecFns, StringExecFns};

verus! {

/// The lower-case form that Unicode gives a text.
pub uninterp spec fn unicode_lowercase(text: Seq<char>) -> Seq<char>;

/// `pattern` stands in `text` at position `at`.
pub open spec fn occurs_at(text: Seq<char>, pattern: Seq<char>, at: int) -> bool {
    0 <= at && at + pattern.len() <= text.len() && text.subrange(at, at + pattern.len())
        == pattern
}

/// `pattern` stands somewhere in `text`.
pub open spec fn contains_text(text: Seq<char>, pattern: Seq<char>) -> bool {
    exists|at: int| occurs_at(text, pattern, at)
}

/// `str::to_lowercase` of the standard library: the result is the Unicode
/// lower-case form of the text, which is determined by the text alone.
#[verifier::external_body]
pub(crate) fn lowercase_of(text: &str) -> (lower: String)
    ensures
        lower@ == unicode_lowercase(text@),
{
    text.to_lowercase()
}

/// `str::contains` of the standard library with a `&str` pattern: whether the
/// pattern matches a part of the text.
#[verifier::external_body]
pub(crate) fn text_contains(text: &str, pattern: &str) -> (found: bool)
    ensures
        found == contains_text(text@, pattern@),
{
    text.contains(pattern)
}

/// `str::eq` of the standard library: two texts are equal where they hold the
/// same characters.
#[verifier::external_body]
pub(crate) fn text_equals(text: &str, other: &str) -> (equal: bool)
    ensures
        equal == (text@ == other@),
{
    text == other
}

/// `str::starts_with` of the standard library with a `&str` pattern: whether
/// the text begins with the pattern.
#[verifier::external_body]
pub(crate) fn text_starts_with(text: &str, pattern: &str) -> (found: bool)
    ensures
        found == occurs_at(text@, pattern@, 0),
{
    text.starts_with(pattern)
}

/// The text in which every occurrence of a pattern, taken from the left, is
/// replaced; the pattern is not empty.
pub open spec fn replaced(text: Seq<char>, pattern: Seq<char>, with: Seq<char>) -> Seq<char>
    decreases text.len(),
{
    if pattern.len() == 0 || text.len() < pattern.len() {
        text
    } else if occurs_at(text, pattern, 0) {
        with + replaced(text.skip(pattern.len() as int), pattern, with)
    } else {
        seq![text[0]] + replaced(text.skip(1), pattern, with)
    }
}

/// `str::replace` of the standard library with a `&str` pattern: all matches
/// of the pattern are replaced.
#[verifier::external_body]
pub(crate) fn text_replaced(text: &str, pattern: &str, with: &str) -> (changed: String)
    requires
        pattern@.len() > 0,
    ensures
        changed@ == replaced(text@, pattern@, with@),
{
    text.replace(pattern, with)
}

/// The parts of a text between its occurrences of a separator, from the left;
/// a text without the separator is one part, and two separators in a row hold
/// an empty part.
pub open spec fn split_parts(text: Seq<char>, separator: char) -> Seq<Seq<char>>
    decreases text.len(),
{
    let at = first_place(text, separator);
    if at < text.len() {
        seq![text.take(at as int)] + split_parts(text.skip(at as int + 1), separator)
    } else {
        seq![text]
    }
}

/// A text has at least one part.
pub proof fn lemma_split_parts_some(text: Seq<char>, separator: char)
    ensures
        split_parts(text, separator).len() > 0,
{
}

/// The text of a string, if there is a string.
pub open spec fn optional_text(text: Option<String>) -> Option<Seq<char>> {
    match text {
        Some(t) => Some(t@),
        None => None,
    }
}

/// The texts of the strings.
pub open spec fn texts(strings: Seq<String>) -> Seq<Seq<char>> {
    strings.map_values(|s: String| s@)
}

/// `str::split` of the standard library with a `char` pattern, its parts
/// gathered: the substrings of the text that the character separates.
#[verifier::external_body]
pub(crate) fn text_split(text: &str, separator: char) -> (parts: Vec<String>)
    ensures
        texts(parts@) == split_parts(text@, separator),
{
    text.split(separator).map(|part| part.to_string()).collect()
}

/// Which of two texts comes first: the one with the lesser character at the
/// first place where the two differ, and a text before every text that it
/// begins.
pub open spec fn order_of(text: Seq<char>, other: Seq<char>) -> std::cmp::Ordering
    decreases text.len(),
{
    if text.len() == 0 && other.len() == 0 {
        std::cmp::Ordering::Equal
    } else if text.len() == 0 {
        std::cmp::Ordering::Less
    } else if other.len() == 0 {
        std::cmp::Ordering::Greater
    } else if text[0] < other[0] {
        std::cmp::Ordering::Less
    } else if text[0] > other[0] {
        std::cmp::Ordering::Greater
    } else {
        order_of(text.skip(1), other.skip(1))
    }
}

/// `Ord::cmp` of the standard library on `str`: texts are ordered
/// character by character, by the places of the characters in Unicode.
#[verifier::external_body]
pub(crate) fn text_order(text: &str, other: &str) -> (order: std::cmp::Ordering)
    ensures
        order == order_of(text@, other@),
{
    text.cmp(other)
}

/// A line without the carriage return at its end, if it has one.
pub open spec fn without_return(line: Seq<char>) -> Seq<char> {
    if line.len() > 0 && line.last() == '\r' {
        line.drop_last()
    } else {
        line
    }
}

/// The lines of a text: a line ends with a line feed, or with a carriage
/// return and a line feed, neither of which belongs to it; what stands behind
/// the last line feed is a line too, unless it is empty.
pub open spec fn lines_of(text: Seq<char>) -> Seq<Seq<char>> {
    let parts = split_parts(text, '\n');
    let ended = parts.drop_last().map_values(|part: Seq<char>| without_return(part));
    if parts.last().len() == 0 {
        ended
    } else {
        ended.push(parts.last())
    }
}

/// `str::lines` of the standard library, its lines gathered: the lines of the
/// text without their line endings.
#[verifier::external_body]
pub(crate) fn text_lines(text: &str) -> (lines: Vec<String>)
    ensures
        texts(lines@) == lines_of(text@),
{
    text.lines().map(|line| line.to_string()).collect()
}

/// `String::push` of the standard library: the character is appended.
#[verifier::external_body]
pub(crate) fn push_char(text: &mut String, c: char)
    ensures
        final(text)@ == old(text)@.push(c),
{
    text.push(c)
}

/// `count` spaces.
pub open spec fn spaces(count: nat) -> Seq<char> {
    Seq::new(count, |i: int| ' ')
}

/// The text in exactly `width` characters: a text that is longer is cut off,
/// a text that is shorter is filled up with spaces behind it.
pub open spec fn fitted(text: Seq<char>, width: nat) -> Seq<char> {
    if text.len() >= width {
        text.take(width as int)
    } else {
        text + spaces((width - text.len()) as nat)
    }
}

/// The text in exactly `width` characters, as `fitted` states.
pub fn fit_text(text: &str, width: usize) -> (shown: String)
    ensures
        shown@ == fitted(text@, width as nat),
{
    let len = text.unicode_len();
    let mut shown = String::new();
    if len >= width {
        shown.append(text.substring_char(0, width));
        assert(shown@ =~= text@.take(width as int));
    } else {
        shown.append(text);
        push_spaces(&mut shown, width - len);
        assert(shown@ =~= text@ + spaces((width - len) as nat));
    }
    shown
}

/// Appends `count` spaces.
pub fn push_spaces(text: &mut String, count: usize)
    ensures
        final(text)@ == old(text)@ + spaces(count as nat),
{
    let mut done: usize = 0;
    while done < count
        invariant
            0 <= done <= count,
            text@ == old(text)@ + spaces(done as nat),
        decreases count - done,
    {
        push_char(text, ' ');
        done = done + 1;
    }
}

/// The character of a decimal digit.
pub open spec fn digit_char(digit: int) -> char {
    (48 + digit) as char
}

/// The decimal digits of `n`, without leading zeros (`0` is one digit).
pub open spec fn decimal(n: nat) -> Seq<char>
    decreases n,
{
    if n < 10 {
        seq![digit_char(n as int)]
    } else {
        decimal(n / 10).push(digit_char((n % 10) as int))
    }
}

/// `count` times the character `0`.
pub open spec fn zeros(count: nat) -> Seq<char> {
    Seq::new(count, |i: int| '0')
}

/// The decimal digits of `n`, with zeros in front up to `width` characters.
pub open spec fn zero_padded(n: nat, width: nat) -> Seq<char> {
    if decimal(n).len() >= width {
        decimal(n)
    } else {
        zeros((width - decimal(n).len()) as nat) + decimal(n)
    }
}

/// A number has at least one digit, and twenty digits at most below 2^64.
pub proof fn lemma_decimal_len(n: nat)
    ensures
        decimal(n).len() >= 1,
        n < 10 ==> decimal(n).len() == 1,
        10 <= n < 100 ==> decimal(n).len() == 2,
        n <= 0xffff_ffff_ffff_ffff ==> decimal(n).len() <= 20,
{
    reveal_with_fuel(decimal, 21);
}

/// The number of decimal digits of `n`.
pub fn decimal_len(n: u64) -> (len: usize)
    ensures
        len == decimal(n as nat).len(),
        1 <= len <= 20,
{
    proof {
        lemma_decimal_len(n as nat);
    }
    let mut rest: u64 = n;
    let mut len: usize = 1;
    while rest >= 10
        invariant
            1 <= len,
            len + decimal(rest as nat).len() == decimal(n as nat).len() + 1,
            decimal(n as nat).len() <= 20,
        decreases rest,
    {
        proof {
            lemma_decimal_len((rest / 10) as nat);
        }
        rest = rest / 10;
        len = len + 1;
    }
    len
}

/// Appends the decimal digits of `n`.
pub fn push_decimal(text: &mut String, n: u64)
    ensures
        final(text)@ == old(text)@ + decimal(n as nat),
    decreases n,
{
    if n >= 10 {
        push_decimal(text, n / 10);
    }
    let digit: u8 = (n % 10) as u8;
    push_char(text, (48 + digit) as char);
    proof {
        if n >= 10 {
            assert(final(text)@ == old(text)@ + decimal((n / 10) as nat).push(
                digit_char((n % 10) as int),
            ));
        }
    }
}

/// Appends the decimal digits of `n`, with zeros in front up to `width`
/// characters.
pub fn push_zero_padded(text: &mut String, n: u64, width: usize)
    ensures
        final(text)@ == old(text)@ + zero_padded(n as nat, width as nat),
{
    let len: usize = decimal_len(n);
    let mut written: usize = len;
    while written < width
        invariant
            len <= written,
            len == decimal(n as nat).len(),
            written <= width || written == len,
            text@ == old(text)@ + zeros((written - len) as nat),
        decreases width - written,
    {
        push_char(text, '0');
        written = written + 1;
    }
    push_decimal(text, n);
}

} // verus!
