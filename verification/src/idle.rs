//! Idle sampler: reads the idle time of the system out of the text that the
//! platform probe prints.
//!
//! The probe prints one property per line. The line of interest names
//! `HIDIdleTime` and gives, after an equals sign, the nanoseconds since the
//! last input event. A probe that could not run, or whose output has no such
//! line, counts as an idle time of zero: the system is taken to be in use.

use crate::text::{chars_of, decimal_text, digit_char};
use vstd::prelude::*;

verus! {

/// The name of the idle-time property in the probe output.
pub open spec fn idle_label() -> Seq<char> {
    seq!['H', 'I', 'D', 'I', 'd', 'l', 'e', 'T', 'i', 'm', 'e']
}

/// Whether `c` is white space: a character with the Unicode property
/// `White_Space`.
pub open spec fn is_whitespace(c: char) -> bool {
    let code = c as u32;
    ||| 0x09 <= code <= 0x0D
    ||| code == 0x20
    ||| code == 0x85
    ||| code == 0xA0
    ||| code == 0x1680
    ||| 0x2000 <= code <= 0x200A
    ||| code == 0x2028
    ||| code == 0x2029
    ||| code == 0x202F
    ||| code == 0x205F
    ||| code == 0x3000
}

/// Whether `c` is one of the digits `0` to `9`.
pub open spec fn is_digit(c: char) -> bool {
    '0' <= c <= '9'
}

/// The number that the digit `c` stands for.
pub open spec fn digit_value(c: char) -> nat {
    (c as u32 - '0' as u32) as nat
}

/// The number that a sequence of digits writes in decimal.
pub open spec fn digits_value(digits: Seq<char>) -> nat
    decreases digits.len(),
{
    if digits.len() == 0 {
        0
    } else {
        digits_value(digits.drop_last()) * 10 + digit_value(digits.last())
    }
}

/// Whether every character of `text` is a digit.
pub open spec fn all_digits(text: Seq<char>) -> bool {
    forall|i: int| 0 <= i < text.len() ==> is_digit(#[trigger] text[i])
}

/// The number that `text` writes, as a 64-bit unsigned integer is parsed: an
/// optional plus sign, then one or more digits, the number no greater than
/// `u64::MAX`. Any other text writes no number.
pub open spec fn parsed_u64(text: Seq<char>) -> Option<u64> {
    if text.len() > 0 && text[0] == '+' {
        digits_number(text.drop_first())
    } else {
        digits_number(text)
    }
}

/// The number that one or more digits write, if it fits 64 bits.
pub open spec fn digits_number(digits: Seq<char>) -> Option<u64> {
    if digits.len() > 0 && all_digits(digits) && digits_value(digits) <= u64::MAX {
        Some(digits_value(digits) as u64)
    } else {
        None
    }
}

/// `text` without the white space that it starts with.
pub open spec fn without_leading_whitespace(text: Seq<char>) -> Seq<char>
    decreases text.len(),
{
    if text.len() > 0 && is_whitespace(text[0]) {
        without_leading_whitespace(text.drop_first())
    } else {
        text
    }
}

/// `text` without the characters other than digits that it ends with.
pub open spec fn without_trailing_non_digits(text: Seq<char>) -> Seq<char>
    decreases text.len(),
{
    if text.len() > 0 && !is_digit(text.last()) {
        without_trailing_non_digits(text.drop_last())
    } else {
        text
    }
}

/// Whether the idle-time label stands in `line` at index `at`.
pub open spec fn has_label_at(line: Seq<char>, at: int) -> bool {
    &&& 0 <= at
    &&& at + idle_label().len() <= line.len()
    &&& forall|j: int| 0 <= j < idle_label().len() ==> #[trigger] line[at + j] == idle_label()[j]
}

/// Whether `line` names the idle-time property anywhere.
pub open spec fn mentions_label(line: Seq<char>) -> bool {
    exists|at: int| has_label_at(line, at)
}

/// The idle time that `line` gives, if it gives one: the line names the
/// idle-time property, and what follows its first equals sign, cleared of
/// leading white space and of trailing characters other than digits, writes
/// a number.
pub open spec fn line_value(line: Seq<char>) -> Option<u64> {
    if mentions_label(line) {
        match line.index_of_first('=') {
            Some(at) => parsed_u64(
                without_trailing_non_digits(without_leading_whitespace(line.skip(at + 1))),
            ),
            None => None,
        }
    } else {
        None
    }
}

/// `text` cut at every line feed. A text that ends in a line feed has an
/// empty last line.
pub open spec fn lines_of(text: Seq<char>) -> Seq<Seq<char>>
    decreases text.len(),
{
    if text.len() == 0 {
        seq![Seq::empty()]
    } else {
        let before = lines_of(text.drop_last());
        if text.last() == '\n' {
            before.push(Seq::empty())
        } else {
            before.drop_last().push(before.last().push(text.last()))
        }
    }
}

/// The idle time given by the first of `lines` that gives one.
pub open spec fn first_value(lines: Seq<Seq<char>>) -> Option<u64>
    decreases lines.len(),
{
    if lines.len() == 0 {
        None
    } else {
        match line_value(lines[0]) {
            Some(nanos) => Some(nanos),
            None => first_value(lines.drop_first()),
        }
    }
}

/// The idle time, in nanoseconds, that the probe output `text` reports.
pub open spec fn reported_idle_nanos(text: Seq<char>) -> Option<u64> {
    first_value(lines_of(text))
}

fn whitespace(c: char) -> (r: bool)
    ensures
        r == is_whitespace(c),
{
    let code = c as u32;
    (0x09 <= code && code <= 0x0D) || code == 0x20 || code == 0x85 || code == 0xA0 || code
        == 0x1680 || (0x2000 <= code && code <= 0x200A) || code == 0x2028 || code == 0x2029
        || code == 0x202F || code == 0x205F || code == 0x3000
}

fn digit(c: char) -> (r: bool)
    ensures
        r == is_digit(c),
{
    '0' <= c && c <= '9'
}

proof fn lemma_digits_value_grows(digits: Seq<char>, shorter: int)
    requires
        0 <= shorter <= digits.len(),
    ensures
        digits_value(digits.take(shorter)) <= digits_value(digits),
    decreases digits.len() - shorter,
{
    if shorter < digits.len() {
        let next = digits.take(shorter + 1);
        assert(next.drop_last() =~= digits.take(shorter));
        lemma_digits_value_grows(digits, shorter + 1);
    } else {
        assert(digits.take(shorter) =~= digits);
    }
}

/// Parses `line[from..to]` as a 64-bit unsigned integer.
fn parse_u64(line: &Vec<char>, from: usize, to: usize) -> (number: Option<u64>)
    requires
        from <= to <= line.len(),
    ensures
        number == parsed_u64(line@.subrange(from as int, to as int)),
{
    let ghost text = line@.subrange(from as int, to as int);
    let start: usize = if from < to && line[from] == '+' {
        from + 1
    } else {
        from
    };
    let ghost digits = line@.subrange(start as int, to as int);
    proof {
        if from < to && text[0] == '+' {
            assert(text.drop_first() =~= digits);
        } else {
            assert(text =~= digits);
        }
    }
    if start == to {
        return None;
    }
    let mut number: u64 = 0;
    let mut at: usize = start;
    while at < to
        invariant
            start <= at <= to <= line.len(),
            start < to,
            digits == line@.subrange(start as int, to as int),
            text == line@.subrange(from as int, to as int),
            parsed_u64(text) == digits_number(digits),
            all_digits(digits.take(at - start)),
            number == digits_value(digits.take(at - start)),
        decreases to - at,
    {
        let c = line[at];
        let ghost seen = digits.take(at - start);
        let ghost next = digits.take(at + 1 - start);
        proof {
            assert(next.drop_last() =~= seen);
            assert(next.last() == c);
            lemma_digits_value_grows(digits, at + 1 - start);
        }
        if !digit(c) {
            assert(digits[at - start] == c);
            return None;
        }
        let value: u64 = (c as u32 - '0' as u32) as u64;
        if number > (u64::MAX - value) / 10 {
            return None;
        }
        number = number * 10 + value;
        at += 1;
        proof {
            assert forall|i: int| 0 <= i < next.len() implies is_digit(#[trigger] next[i]) by {
                if i < seen.len() {
                    assert(next[i] == seen[i]);
                }
            }
        }
    }
    proof {
        assert(digits.take(to - start) =~= digits);
    }
    Some(number)
}

fn names_label(line: &Vec<char>) -> (found: bool)
    ensures
        found == mentions_label(line@),
{
    proof {
        reveal_strlit("HIDIdleTime");
    }
    let label = chars_of("HIDIdleTime");
    assert(label@ =~= idle_label());
    if line.len() < label.len() {
        assert forall|at: int| !has_label_at(line@, at) by {}
        return false;
    }
    let last: usize = line.len() - label.len();
    let mut at: usize = 0;
    while at <= last
        invariant
            label@ == idle_label(),
            last == line.len() - label.len(),
            at <= last + 1,
            forall|i: int| 0 <= i < at ==> !has_label_at(line@, i),
        decreases last + 1 - at,
    {
        let mut same: usize = 0;
        while same < label.len() && line[at + same] == label[same]
            invariant
                label@ == idle_label(),
                at + label.len() <= line.len(),
                same <= label.len(),
                forall|j: int| 0 <= j < same ==> #[trigger] line@[at + j] == idle_label()[j],
            decreases label.len() - same,
        {
            same += 1;
        }
        if same == label.len() {
            assert(has_label_at(line@, at as int));
            return true;
        }
        assert(!has_label_at(line@, at as int)) by {
            if has_label_at(line@, at as int) {
                assert(line@[at + same] == idle_label()[same as int]);
            }
        }
        at += 1;
    }
    assert forall|i: int| !has_label_at(line@, i) by {}
    false
}

/// The idle time that a line of the probe output gives, if it gives one.
fn value_of_line(line: &Vec<char>) -> (value: Option<u64>)
    ensures
        value == line_value(line@),
{
    if !names_label(line) {
        return None;
    }
    let mut equals: usize = 0;
    while equals < line.len() && line[equals] != '='
        invariant
            equals <= line.len(),
            forall|j: int| 0 <= j < equals ==> line@[j] != '=',
        decreases line.len() - equals,
    {
        equals += 1;
    }
    proof {
        line@.index_of_first_ensures('=');
    }
    if equals == line.len() {
        return None;
    }
    assert(line@.index_of_first('=') == Some(equals as int));
    let ghost rest = line@.skip(equals + 1);
    let mut from: usize = equals + 1;
    assert(line@.skip(from as int) =~= rest);
    while from < line.len() && whitespace(line[from])
        invariant
            equals < from <= line.len(),
            without_leading_whitespace(rest) == without_leading_whitespace(line@.skip(from as int)),
        decreases line.len() - from,
    {
        assert(line@.skip(from as int).drop_first() =~= line@.skip(from + 1));
        from += 1;
    }
    let ghost trimmed = line@.skip(from as int);
    assert(without_leading_whitespace(rest) == trimmed);
    let mut to: usize = line.len();
    assert(line@.subrange(from as int, to as int) =~= trimmed);
    while to > from && !digit(line[to - 1])
        invariant
            from <= to <= line.len(),
            without_trailing_non_digits(trimmed) == without_trailing_non_digits(
                line@.subrange(from as int, to as int),
            ),
        decreases to,
    {
        assert(line@.subrange(from as int, to as int).drop_last() =~= line@.subrange(
            from as int,
            to - 1,
        ));
        to -= 1;
    }
    parse_u64(line, from, to)
}

/// The lines of a text, each as its characters.
pub open spec fn lines_view(lines: Seq<Vec<char>>) -> Seq<Seq<char>> {
    lines.map_values(|line: Vec<char>| line@)
}

fn split_lines(text: &str) -> (lines: Vec<Vec<char>>)
    ensures
        lines_view(lines@) == lines_of(text@),
{
    let mut lines: Vec<Vec<char>> = Vec::new();
    let mut current: Vec<char> = Vec::new();
    proof {
        assert(text@.take(0) =~= Seq::<char>::empty());
        assert(lines_view(lines@).push(current@) =~= seq![Seq::<char>::empty()]);
    }
    for c in rest: text.chars()
        invariant
            rest.seq() == text@,
            lines_view(lines@).push(current@) == lines_of(text@.take(rest.index() as int)),
    {
        let ghost seen = text@.take(rest.index() as int);
        let ghost next = text@.take(rest.index() + 1);
        proof {
            assert(next.drop_last() =~= seen);
            assert(next.last() == c);
            assert(lines_of(seen).last() == current@);
            assert(lines_of(seen).drop_last() =~= lines_view(lines@));
        }
        if c == '\n' {
            lines.push(current);
            current = Vec::new();
            proof {
                assert(lines_view(lines@).push(current@) =~= lines_of(seen).push(
                    Seq::<char>::empty(),
                ));
            }
        } else {
            current.push(c);
        }
    }
    proof {
        assert(text@.take(text@.len() as int) =~= text@);
    }
    lines.push(current);
    assert(lines_view(lines@) =~= lines_of(text@));
    lines
}

/// Reads the idle time out of the probe output: the nanoseconds given by the
/// first line that names the idle-time property and gives a number.
pub fn parse_idle_nanos(text: &str) -> (nanos: Option<u64>)
    ensures
        nanos == reported_idle_nanos(text@),
{
    let lines = split_lines(text);
    let ghost all = lines_view(lines@);
    let mut at: usize = 0;
    assert(all.skip(0) =~= all);
    while at < lines.len()
        invariant
            at <= lines.len(),
            all == lines_view(lines@),
            all == lines_of(text@),
            first_value(all) == first_value(all.skip(at as int)),
        decreases lines.len() - at,
    {
        proof {
            assert(all.skip(at as int)[0] == lines@[at as int]@);
            assert(all.skip(at as int).drop_first() =~= all.skip(at + 1));
        }
        match value_of_line(&lines[at]) {
            Some(nanos) => {
                assert(first_value(all.skip(at as int)) == Some(nanos));
                return Some(nanos);
            },
            None => {},
        }
        at += 1;
    }
    None
}

/// The idle time of the system, in nanoseconds, as far as the probe tells.
///
/// `probe_output` is what the probe printed, or `None` if it could not run.
/// Without a readable idle time the result is zero, which counts as
/// activity: a missed inactivity is preferred to a spurious one.
pub fn system_idle_nanos(probe_output: Option<&str>) -> (nanos: u64)
    ensures
        nanos == match probe_output {
            Some(text) => match reported_idle_nanos(text@) {
                Some(reported) => reported,
                None => 0,
            },
            None => 0,
        },
{
    match probe_output {
        Some(text) => match parse_idle_nanos(text) {
            Some(reported) => reported,
            None => 0,
        },
        None => 0,
    }
}

proof fn lemma_decimal_text_is_digits(n: nat)
    ensures
        decimal_text(n).len() > 0,
        all_digits(decimal_text(n)),
        digits_value(decimal_text(n)) == n,
    decreases n,
{
    let text = decimal_text(n);
    if n >= 10 {
        let front = decimal_text(n / 10);
        lemma_decimal_text_is_digits(n / 10);
        assert(text.drop_last() =~= front);
        assert(text.last() == digit_char(n % 10));
        assert forall|i: int| 0 <= i < text.len() implies is_digit(#[trigger] text[i]) by {
            if i < front.len() {
                assert(text[i] == front[i]);
            }
        }
    } else {
        assert(text.drop_last() =~= Seq::<char>::empty());
        assert(digits_value(Seq::<char>::empty()) == 0);
    }
}

/// Reading is the inverse of writing: the decimal writing of a 64-bit number
/// parses to that number.
pub proof fn lemma_decimal_text_parses_back(n: u64)
    ensures
        parsed_u64(decimal_text(n as nat)) == Some(n),
{
    lemma_decimal_text_is_digits(n as nat);
    assert(is_digit(decimal_text(n as nat)[0]));
}

} // verus!
