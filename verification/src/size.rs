//! Byte counts: the size of a candidate, read from the index's listing of
//! its files, and the text a size is shown with.

use vstd::prelude::*;
use crate::error::ResolveError;
use crate::text::{is_whitespace, lines, lines_of, views_of, whitespace};

verus! {

/// A count of bytes. Sizes add without wrapping and are ordered by their
/// count.
#[derive(Debug, Clone, Copy, PartialEq, Eq, Structural)]
pub struct CefSize {
    bytes: u64,
}

/// The text that the crate `size` writes for a count of bytes, in units
/// of base 10 and with the short name of the unit, as in `1.50 KB`.
pub uninterp spec fn size_text(bytes: u64) -> Seq<char>;

/// `size::Size::from_bytes` and the formatter that `Size::format` gives,
/// set to `Base::Base10` and `Style::Abbreviated` and written out with
/// `to_string`: the text depends on the count alone.
#[verifier::external_body]
fn abbreviated(bytes: u64) -> (text: String)
    ensures
        text@ == size_text(bytes),
{
    size::Size::from_bytes(bytes).format().with_base(size::Base::Base10).with_style(
        size::Style::Abbreviated,
    ).to_string()
}

impl View for CefSize {
    type V = nat;

    open spec fn view(&self) -> nat {
        self.count() as nat
    }
}

impl CefSize {
    /// The count of bytes.
    pub closed spec fn count(&self) -> u64 {
        self.bytes
    }

    /// The size of `bytes` bytes.
    pub fn from_bytes(bytes: u64) -> (size: CefSize)
        ensures
            size.count() == bytes,
    {
        CefSize { bytes }
    }

    /// The count of bytes.
    pub fn bytes(&self) -> (bytes: u64)
        ensures
            bytes == self.count(),
    {
        self.bytes
    }

    /// The sum of two sizes, unless it exceeds what a `u64` holds.
    pub fn checked_add(&self, other: &CefSize) -> (sum: Option<CefSize>)
        ensures
            sum is Some <==> self.count() + other.count() <= u64::MAX,
            sum matches Some(s) ==> s.count() == self.count() + other.count(),
    {
        match self.bytes.checked_add(other.bytes) {
            Some(bytes) => Some(CefSize { bytes }),
            None => None,
        }
    }

    /// Whether this size is at least `other`.
    pub fn at_least(&self, other: &CefSize) -> (b: bool)
        ensures
            b == (self.count() >= other.count()),
    {
        self.bytes >= other.bytes
    }

    /// The size as a reader sees it: `size_text` of the count.
    pub fn format(&self) -> (text: String)
        ensures
            text@ == size_text(self.count()),
    {
        abbreviated(self.bytes)
    }
}

/// Whether `c` is one of the digits `0` to `9`.
pub open spec fn is_digit(c: char) -> bool {
    '0' <= c && c <= '9'
}

/// The number that the digit `c` stands for.
pub open spec fn digit_value(c: char) -> int {
    c as int - '0' as int
}

/// The number that the digits of `s` write in base 10.
pub open spec fn decimal_value(s: Seq<char>) -> int
    decreases s.len(),
{
    if s.len() == 0 {
        0
    } else {
        decimal_value(s.drop_last()) * 10 + digit_value(s.last())
    }
}

/// Whether `s` holds digits only.
pub open spec fn all_digits(s: Seq<char>) -> bool {
    forall|i: int| 0 <= i < s.len() ==> is_digit(#[trigger] s[i])
}

/// `s` without a plus sign at its start.
pub open spec fn unsigned_digits(s: Seq<char>) -> Seq<char> {
    if s.len() > 0 && s[0] == '+' {
        s.drop_first()
    } else {
        s
    }
}

/// The number that `s` writes: one or more digits, which a plus sign may
/// precede, that stand for a number a `u64` holds. Anything else is no
/// number.
pub open spec fn unsigned_of(s: Seq<char>) -> Option<u64> {
    let digits = unsigned_digits(s);
    if digits.len() > 0 && all_digits(digits) && decimal_value(digits) <= u64::MAX {
        Some(decimal_value(digits) as u64)
    } else {
        None
    }
}

/// Digits write a number that is not negative, and more digits never
/// write a smaller one.
proof fn lemma_decimal_grows(s: Seq<char>, n: int)
    requires
        all_digits(s),
        0 <= n <= s.len(),
    ensures
        0 <= decimal_value(s.take(n)) <= decimal_value(s),
    decreases s.len() - n,
{
    lemma_decimal_not_negative(s.take(n));
    if n < s.len() {
        let longer = s.take(n + 1);
        assert(longer.drop_last() == s.take(n));
        assert(is_digit(s[n]));
        assert(longer.last() == s[n]);
        lemma_decimal_grows(s, n + 1);
    } else {
        assert(s.take(n) == s);
    }
}

proof fn lemma_decimal_not_negative(s: Seq<char>)
    requires
        all_digits(s),
    ensures
        0 <= decimal_value(s),
    decreases s.len(),
{
    if s.len() > 0 {
        assert(is_digit(s.last()));
        assert forall|i: int| 0 <= i < s.drop_last().len() implies is_digit(
            #[trigger] s.drop_last()[i],
        ) by {
            assert(s.drop_last()[i] == s[i]);
        }
        lemma_decimal_not_negative(s.drop_last());
    }
}

/// The number that the digit `c` stands for, if it is a digit.
fn digit(c: char) -> (d: Option<u64>)
    ensures
        d is Some <==> is_digit(c),
        d matches Some(v) ==> v == digit_value(c),
{
    if '0' <= c && c <= '9' {
        Some((c as u64) - ('0' as u64))
    } else {
        None
    }
}

/// Reads the number that `s[from..to]` writes: see `unsigned_of`.
pub fn parse_unsigned(s: &Vec<char>, from: usize, to: usize) -> (r: Option<u64>)
    requires
        from <= to <= s.len(),
    ensures
        r == unsigned_of(s@.subrange(from as int, to as int)),
{
    let ghost whole = s@.subrange(from as int, to as int);
    let mut start: usize = from;
    if start < to && s[start] == '+' {
        start += 1;
    }
    let ghost digits = s@.subrange(start as int, to as int);
    assert(digits == unsigned_digits(whole));
    if start == to {
        return None;
    }
    let mut value: u64 = 0;
    let mut i: usize = start;
    assert(digits.take(0) == Seq::<char>::empty());
    while i < to
        invariant
            from <= start <= i <= to <= s.len(),
            digits == s@.subrange(start as int, to as int),
            digits == unsigned_digits(s@.subrange(from as int, to as int)),
            all_digits(digits.take(i - start)),
            value == decimal_value(digits.take(i - start)),
        decreases to - i,
    {
        let ghost seen = digits.take(i - start);
        let ghost next = digits.take(i - start + 1);
        assert(next.drop_last() == seen);
        assert(next.last() == s@[i as int]);
        let d = match digit(s[i]) {
            Some(d) => d,
            None => {
                assert(!is_digit(digits[i - start]));
                return None;
            },
        };
        assert(all_digits(next)) by {
            assert forall|j: int| 0 <= j < next.len() implies is_digit(#[trigger] next[j]) by {
                if j < seen.len() {
                    assert(next[j] == seen[j]);
                }
            }
        }
        let grown = match value.checked_mul(10) {
            Some(t) => t.checked_add(d),
            None => None,
        };
        match grown {
            Some(v) => {
                value = v;
            },
            None => {
                assert(decimal_value(next) > u64::MAX);
                proof {
                    if all_digits(digits) {
                        lemma_decimal_grows(digits, i - start + 1);
                    }
                }
                return None;
            },
        }
        i += 1;
    }
    assert(digits.take(i - start) == digits);
    Some(value)
}

/// The first index at or after `from` at which no white space stands.
pub open spec fn skip_whitespace(s: Seq<char>, from: int) -> int
    decreases s.len() - from,
{
    if 0 <= from < s.len() && is_whitespace(s[from]) {
        skip_whitespace(s, from + 1)
    } else {
        from
    }
}

/// The first index at or after `from` at which white space stands, or the
/// end.
pub open spec fn skip_field(s: Seq<char>, from: int) -> int
    decreases s.len() - from,
{
    if 0 <= from < s.len() && !is_whitespace(s[from]) {
        skip_field(s, from + 1)
    } else {
        from
    }
}

/// The first field of `line`: what stands between the white space at its
/// start and the next white space or the end. A line of white space alone
/// has none.
pub open spec fn first_field(line: Seq<char>) -> Option<Seq<char>> {
    let from = skip_whitespace(line, 0);
    let to = skip_field(line, from);
    if from < to <= line.len() {
        Some(line.subrange(from, to))
    } else {
        None
    }
}

/// The sum of the sizes that `lines` report, each in its first field. A
/// line without a field reports nothing. `None` where a field is no
/// number.
pub open spec fn listed_total(lines: Seq<Seq<char>>) -> Option<int>
    decreases lines.len(),
{
    if lines.len() == 0 {
        Some(0)
    } else {
        match listed_total(lines.drop_last()) {
            None => None,
            Some(before) => match first_field(lines.last()) {
                None => Some(before),
                Some(field) => match unsigned_of(field) {
                    None => None,
                    Some(n) => Some(before + n),
                },
            },
        }
    }
}

/// The size that a listing reports in all: the sum over its lines, if
/// every size in it is a number and the sum is one that a `u64` holds.
pub open spec fn listed_size(listing: Seq<char>) -> Option<u64> {
    match listed_total(lines_of(listing)) {
        Some(total) if total <= u64::MAX => Some(total as u64),
        _ => None,
    }
}

/// A total never shrinks as lines are added, and is lost for good once a
/// field is no number.
proof fn lemma_total_grows(lines: Seq<Seq<char>>, n: int)
    requires
        0 <= n <= lines.len(),
    ensures
        listed_total(lines.take(n)) is None ==> listed_total(lines) is None,
        listed_total(lines) matches Some(all) ==> 0 <= listed_total(lines.take(n))->0 <= all,
    decreases lines.len() - n,
{
    if n < lines.len() {
        assert(lines.take(n + 1).drop_last() == lines.take(n));
        lemma_total_grows(lines, n + 1);
        lemma_total_not_negative(lines.take(n));
    } else {
        assert(lines.take(n) == lines);
        lemma_total_not_negative(lines);
    }
}

proof fn lemma_total_not_negative(lines: Seq<Seq<char>>)
    ensures
        listed_total(lines) matches Some(all) ==> 0 <= all,
    decreases lines.len(),
{
    if lines.len() > 0 {
        lemma_total_not_negative(lines.drop_last());
    }
}

/// The bounds of the first field of `line`, where it has one.
pub fn field_bounds(line: &Vec<char>) -> (r: Option<(usize, usize)>)
    ensures
        r is Some <==> first_field(line@) is Some,
        r matches Some((from, to)) ==> from < to <= line.len() && first_field(line@) == Some(
            line@.subrange(from as int, to as int),
        ),
{
    let mut from: usize = 0;
    while from < line.len() && whitespace(line[from])
        invariant
            from <= line.len(),
            skip_whitespace(line@, 0) == skip_whitespace(line@, from as int),
        decreases line.len() - from,
    {
        from += 1;
    }
    let mut to: usize = from;
    while to < line.len() && !whitespace(line[to])
        invariant
            from <= to <= line.len(),
            skip_field(line@, from as int) == skip_field(line@, to as int),
        decreases line.len() - to,
    {
        to += 1;
    }
    if from < to {
        Some((from, to))
    } else {
        None
    }
}

/// Adds up the sizes that the index lists for the files of one candidate.
///
/// Each line of `listing` reports the size of one file in its first
/// field, in digits without grouping. The result is their sum. It is an
/// error if a field is no number, or if the sum is more than a `u64`
/// holds.
pub fn get_size(listing: &str) -> (r: Result<CefSize, ResolveError>)
    ensures
        r is Ok <==> listed_size(listing@) is Some,
        r matches Ok(size) ==> listed_size(listing@) == Some(size.count()),
        r matches Err(e) ==> e is Size,
{
    let all = lines(listing);
    let ghost texts = views_of(all@);
    let mut total: u64 = 0;
    let mut i: usize = 0;
    assert(texts.take(0) == Seq::<Seq<char>>::empty());
    while i < all.len()
        invariant
            i <= all.len(),
            texts == views_of(all@),
            texts == lines_of(listing@),
            listed_total(texts.take(i as int)) == Some(total as int),
        decreases all.len() - i,
    {
        let line = &all[i];
        proof {
            assert(texts.take(i + 1).drop_last() == texts.take(i as int));
            assert(texts.take(i + 1).last() == line@);
            lemma_total_grows(texts, i + 1);
        }
        match field_bounds(line) {
            None => {},
            Some((from, to)) => {
                let sum = match parse_unsigned(line, from, to) {
                    Some(n) => total.checked_add(n),
                    None => None,
                };
                match sum {
                    Some(s) => {
                        total = s;
                    },
                    None => {
                        return Err(ResolveError::Size);
                    },
                }
            },
        }
        i += 1;
    }
    assert(texts.take(i as int) == texts);
    Ok(CefSize::from_bytes(total))
}

} // verus!
