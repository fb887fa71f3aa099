//! Text helpers: the characters of a string, the order of strings, and the
//! decimal writing of numbers.

use vstd::prelude::*;
use vstd::std_specs::iter::IteratorSpec;

verus! {

/// The characters of `text`, in order.
pub fn chars_of(text: &str) -> (chars: Vec<char>)
    ensures
        chars@ == text@,
{
    let mut chars: Vec<char> = Vec::new();
    for c in rest: text.chars()
        invariant
            rest.seq() == text@,
            chars@ == text@.take(rest.index() as int),
    {
        chars.push(c);
    }
    chars
}

/// The text of an optional string.
pub open spec fn optional_text(text: Option<String>) -> Option<Seq<char>> {
    match text {
        Some(t) => Some(t@),
        None => None,
    }
}

/// Whether two strings hold the same text.
pub fn same_text(a: &str, b: &str) -> (same: bool)
    ensures
        same == (a@ == b@),
{
    a.to_owned() == b.to_owned()
}

/// Whether `a` comes before `b`, or equals it, in the lexicographic order of
/// their characters by code point: the order in which strings compare.
pub open spec fn text_le(a: Seq<char>, b: Seq<char>) -> bool
    decreases a.len(),
{
    if a.len() == 0 {
        true
    } else if b.len() == 0 {
        false
    } else if a[0] != b[0] {
        a[0] < b[0]
    } else {
        text_le(a.drop_first(), b.drop_first())
    }
}

/// Compares two strings in the order of `text_le`.
pub fn text_le_exec(a: &str, b: &str) -> (le: bool)
    ensures
        le == text_le(a@, b@),
{
    let mut others = b.chars();
    assert(a@.skip(0) =~= a@ && b@.skip(0) =~= b@);
    for c in mine: a.chars()
        invariant
            mine.seq() == a@,
            mine.index() <= b@.len(),
            others.remaining() == b@.skip(mine.index() as int),
            text_le(a@, b@) == text_le(a@.skip(mine.index() as int), b@.skip(mine.index() as int)),
    {
        let ghost at = mine.index() as int;
        assert(a@.skip(at)[0] == c);
        assert(a@.skip(at).drop_first() == a@.skip(at + 1));
        match others.next() {
            None => {
                return false;
            },
            Some(d) => {
                assert(b@.skip(at)[0] == d);
                assert(b@.skip(at).drop_first() == b@.skip(at + 1));
                if c != d {
                    return c < d;
                }
            },
        }
    }
    true
}

/// Every string is ordered before or equal to itself.
pub proof fn lemma_text_le_reflexive(a: Seq<char>)
    ensures
        text_le(a, a),
    decreases a.len(),
{
    if a.len() > 0 {
        lemma_text_le_reflexive(a.drop_first());
    }
}

/// Of two strings, one is ordered before or equal to the other.
pub proof fn lemma_text_le_total(a: Seq<char>, b: Seq<char>)
    ensures
        text_le(a, b) || text_le(b, a),
    decreases a.len(),
{
    if a.len() > 0 && b.len() > 0 && a[0] == b[0] {
        lemma_text_le_total(a.drop_first(), b.drop_first());
    }
}

/// The order of strings is transitive.
pub proof fn lemma_text_le_transitive(a: Seq<char>, b: Seq<char>, c: Seq<char>)
    requires
        text_le(a, b),
        text_le(b, c),
    ensures
        text_le(a, c),
    decreases a.len(),
{
    if a.len() > 0 && b.len() > 0 && c.len() > 0 && a[0] == b[0] && b[0] == c[0] {
        lemma_text_le_transitive(a.drop_first(), b.drop_first(), c.drop_first());
    }
}

/// Two strings that are each ordered before or equal to the other are equal.
pub proof fn lemma_text_le_antisymmetric(a: Seq<char>, b: Seq<char>)
    requires
        text_le(a, b),
        text_le(b, a),
    ensures
        a == b,
    decreases a.len(),
{
    if a.len() > 0 && b.len() > 0 {
        lemma_text_le_antisymmetric(a.drop_first(), b.drop_first());
        assert(a =~= seq![a[0]] + a.drop_first());
        assert(b =~= seq![b[0]] + b.drop_first());
    } else {
        assert(a =~= b);
    }
}

/// The character that writes the digit `d`.
pub open spec fn digit_char(d: nat) -> char {
    if d == 0 {
        '0'
    } else if d == 1 {
        '1'
    } else if d == 2 {
        '2'
    } else if d == 3 {
        '3'
    } else if d == 4 {
        '4'
    } else if d == 5 {
        '5'
    } else if d == 6 {
        '6'
    } else if d == 7 {
        '7'
    } else if d == 8 {
        '8'
    } else {
        '9'
    }
}

/// The decimal writing of `n`: its digits from the most significant down,
/// with no leading zero and no sign.
pub open spec fn decimal_text(n: nat) -> Seq<char>
    decreases n,
{
    if n < 10 {
        seq![digit_char(n)]
    } else {
        decimal_text(n / 10).push(digit_char(n % 10))
    }
}

fn digit_str(d: u64) -> (text: &'static str)
    requires
        d < 10,
    ensures
        text@ == seq![digit_char(d as nat)],
{
    proof {
        reveal_strlit("0");
        reveal_strlit("1");
        reveal_strlit("2");
        reveal_strlit("3");
        reveal_strlit("4");
        reveal_strlit("5");
        reveal_strlit("6");
        reveal_strlit("7");
        reveal_strlit("8");
        reveal_strlit("9");
    }
    let text = if d == 0 {
        "0"
    } else if d == 1 {
        "1"
    } else if d == 2 {
        "2"
    } else if d == 3 {
        "3"
    } else if d == 4 {
        "4"
    } else if d == 5 {
        "5"
    } else if d == 6 {
        "6"
    } else if d == 7 {
        "7"
    } else if d == 8 {
        "8"
    } else {
        "9"
    };
    assert(text@ =~= seq![digit_char(d as nat)]);
    text
}

/// Writes `n` in decimal.
pub fn decimal_string(n: u64) -> (text: String)
    ensures
        text@ == decimal_text(n as nat),
{
    let mut digits: Vec<u64> = Vec::new();
    let mut rest: u64 = n;
    while rest >= 10
        invariant
            forall|i: int| 0 <= i < digits.len() ==> digits[i] < 10,
            decimal_text(n as nat) == decimal_text(rest as nat) + tail_text(digits@),
        decreases rest,
    {
        let digit: u64 = rest % 10;
        proof {
            let shorter = decimal_text((rest / 10) as nat);
            assert(decimal_text(rest as nat) == shorter.push(digit_char(digit as nat)));
            assert(digits@.push(digit).drop_last() =~= digits@);
            assert(shorter.push(digit_char(digit as nat)) + tail_text(digits@) =~= shorter
                + tail_text(digits@.push(digit)));
        }
        digits.push(digit);
        rest = rest / 10;
    }
    let mut text = String::from_str(digit_str(rest));
    let mut left: usize = digits.len();
    assert(digits@.take(left as int) =~= digits@);
    while left > 0
        invariant
            left <= digits.len(),
            forall|i: int| 0 <= i < digits.len() ==> digits[i] < 10,
            text@ + tail_text(digits@.take(left as int)) == decimal_text(n as nat),
        decreases left,
    {
        left -= 1;
        proof {
            let before = digits@.take(left + 1);
            assert(before.drop_last() =~= digits@.take(left as int));
            assert(before.last() == digits[left as int]);
            assert(text@ + tail_text(before) =~= (text@ + seq![
                digit_char(digits[left as int] as nat),
            ]) + tail_text(digits@.take(left as int)));
        }
        text.append(digit_str(digits[left]));
    }
    proof {
        assert(digits@.take(0) =~= Seq::<u64>::empty());
        assert(text@ + tail_text(digits@.take(0)) =~= text@);
    }
    text
}

/// The text of digits that were collected from the least significant up:
/// the last collected digit is written first.
spec fn tail_text(collected: Seq<u64>) -> Seq<char>
    decreases collected.len(),
{
    if collected.len() == 0 {
        Seq::empty()
    } else {
        seq![digit_char(collected.last() as nat)] + tail_text(collected.drop_last())
    }
}

} // verus!
