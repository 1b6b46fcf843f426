//! Small verified helpers on strings, seen as sequences of characters.

use vstd::prelude::*;
use vstd::string::StringExecFns;

verus! {

/// Number of characters of `s` that stand before the first `sep`; the whole
/// length where `s` holds no `sep`.
pub open spec fn prefix_len(s: Seq<char>, sep: char) -> nat
    decreases s.len(),
{
    if s.len() == 0 || s[0] == sep {
        0
    } else {
        1 + prefix_len(s.drop_first(), sep)
    }
}

/// What stands before the first `sep`.
pub open spec fn spec_head(s: Seq<char>, sep: char) -> Seq<char> {
    s.take(prefix_len(s, sep) as int)
}

/// What stands behind the first `sep`, if `s` holds one.
pub open spec fn spec_rest(s: Seq<char>, sep: char) -> Option<Seq<char>> {
    if prefix_len(s, sep) < s.len() {
        Some(s.skip(prefix_len(s, sep) as int + 1))
    } else {
        None
    }
}

/// `prefix_len` is the one position that holds `sep` with no `sep` before it.
pub proof fn lemma_prefix_len_is(s: Seq<char>, sep: char, i: int)
    requires
        0 <= i <= s.len(),
        forall|j: int| 0 <= j < i ==> s[j] != sep,
        i < s.len() ==> s[i] == sep,
    ensures
        prefix_len(s, sep) == i,
    decreases s.len(),
{
    if i > 0 {
        let t = s.drop_first();
        assert forall|j: int| 0 <= j < i - 1 implies t[j] != sep by {
            assert(t[j] == s[j + 1]);
        }
        lemma_prefix_len_is(t, sep, i - 1);
    }
}

/// No `sep` stands before `prefix_len`, and one stands at it unless it is the
/// length.
pub proof fn lemma_prefix_len_bounds(s: Seq<char>, sep: char)
    ensures
        prefix_len(s, sep) <= s.len(),
        forall|j: int| 0 <= j < prefix_len(s, sep) ==> s[j] != sep,
        prefix_len(s, sep) < s.len() ==> s[prefix_len(s, sep) as int] == sep,
        !spec_head(s, sep).contains(sep),
    decreases s.len(),
{
    if s.len() == 0 || s[0] == sep {
    } else {
        let t = s.drop_first();
        lemma_prefix_len_bounds(t, sep);
        assert forall|j: int| 0 <= j < prefix_len(s, sep) implies s[j] != sep by {
            if j > 0 {
                assert(s[j] == t[j - 1]);
            }
        }
        if prefix_len(s, sep) < s.len() {
            assert(s[prefix_len(s, sep) as int] == t[prefix_len(t, sep) as int]);
        }
    }
}

/// Whether two string slices hold the same characters.
pub fn str_equal(a: &str, b: &str) -> (same: bool)
    ensures
        same == (a@ == b@),
{
    let left = String::from_str(a);
    let right = String::from_str(b);
    left == right
}

/// Position of the first `c` in `s`, counted in characters.
pub fn find_char(s: &str, c: char) -> (found: Option<usize>)
    ensures
        match found {
            Some(i) => i == prefix_len(s@, c) && i < s@.len() && s@[i as int] == c,
            None => prefix_len(s@, c) == s@.len() && !s@.contains(c),
        },
        forall|j: int| 0 <= j < prefix_len(s@, c) ==> s@[j] != c,
{
    proof {
        lemma_prefix_len_bounds(s@, c);
    }
    let total = s.unicode_len();
    let mut at: usize = 0;
    for x in it: s.chars()
        invariant
            at == it.index(),
            it.seq() == s@,
            total == s@.len(),
            forall|j: int| 0 <= j < at ==> s@[j] != c,
    {
        if x == c {
            proof {
                lemma_prefix_len_is(s@, c, at as int);
            }
            return Some(at);
        }
        at = at + 1;
    }
    proof {
        lemma_prefix_len_is(s@, c, s@.len() as int);
    }
    None
}

/// Cuts `s` at its first `sep`: what stands before it, and what stands behind
/// it where there is one.
pub fn split_first(s: &str, sep: char) -> (parts: (String, Option<String>))
    ensures
        parts.0@ == spec_head(s@, sep),
        !parts.0@.contains(sep),
        match parts.1 {
            Some(rest) => spec_rest(s@, sep) == Some(rest@) && s@ == parts.0@ + seq![sep] + rest@,
            None => spec_rest(s@, sep) is None && s@ == parts.0@,
        },
{
    proof {
        lemma_prefix_len_bounds(s@, sep);
    }
    let total = s.unicode_len();
    match find_char(s, sep) {
        Some(at) => {
            let head = String::from_str(s.substring_char(0, at));
            let rest = String::from_str(s.substring_char(at + 1, total));
            proof {
                assert(s@.subrange(0, at as int) == s@.take(at as int));
                assert(s@.subrange(at + 1, total as int) == s@.skip(at + 1));
                assert(s@ =~= head@ + seq![sep] + rest@);
            }
            (head, Some(rest))
        },
        None => {
            proof {
                assert(s@.take(s@.len() as int) == s@);
            }
            (String::from_str(s), None)
        },
    }
}

/// The characters of `a` followed by those of `b`.
pub fn join_text(a: &str, b: &str) -> (joined: String)
    ensures
        joined@ == a@ + b@,
{
    let mut joined = String::from_str(a);
    joined.append(b);
    joined
}

/// The value of a decimal digit.
pub open spec fn digit_value(c: char) -> Option<nat> {
    if '0' <= c <= '9' {
        Some((c as nat - '0' as nat) as nat)
    } else {
        None
    }
}

/// The number that a run of decimal digits writes; `None` where one of the
/// characters is no digit. The empty run writes zero.
pub open spec fn decimal_value(digits: Seq<char>) -> Option<nat>
    decreases digits.len(),
{
    if digits.len() == 0 {
        Some(0)
    } else {
        match (decimal_value(digits.drop_last()), digit_value(digits.last())) {
            (Some(front), Some(last)) => Some(front * 10 + last),
            _ => None,
        }
    }
}

/// The digits of a number text: the text without a plus sign in front.
pub open spec fn unsigned_part(text: Seq<char>) -> Seq<char> {
    if text.len() > 0 && text[0] == '+' {
        text.skip(1)
    } else {
        text
    }
}

/// The 16-bit number that a text writes in decimal digits, with or without
/// a plus sign in front; `None` where the text has no digits, holds anything
/// else, or writes a number over 65535.
pub open spec fn spec_parse_u16(text: Seq<char>) -> Option<u16> {
    let digits = unsigned_part(text);
    if digits.len() == 0 {
        None
    } else {
        match decimal_value(digits) {
            Some(value) if value <= u16::MAX => Some(value as u16),
            _ => None,
        }
    }
}

/// A run of digits writes at least what each of its beginnings writes, and
/// writes nothing where one of its beginnings writes nothing.
pub proof fn lemma_decimal_value_grows(digits: Seq<char>, k: int)
    requires
        0 <= k <= digits.len(),
    ensures
        decimal_value(digits.take(k)) is None ==> decimal_value(digits) is None,
        decimal_value(digits) is Some ==> decimal_value(digits.take(k))->0 <= decimal_value(
            digits,
        )->0,
    decreases digits.len(),
{
    if k == digits.len() {
        assert(digits.take(k) =~= digits);
    } else {
        let front = digits.drop_last();
        assert(front.take(k) =~= digits.take(k));
        lemma_decimal_value_grows(front, k);
    }
}

/// The value of a decimal digit.
fn digit_of(c: char) -> (value: Option<u32>)
    ensures
        match value {
            Some(v) => digit_value(c) == Some(v as nat),
            None => digit_value(c) is None,
        },
{
    match c {
        '0' => Some(0),
        '1' => Some(1),
        '2' => Some(2),
        '3' => Some(3),
        '4' => Some(4),
        '5' => Some(5),
        '6' => Some(6),
        '7' => Some(7),
        '8' => Some(8),
        '9' => Some(9),
        _ => None,
    }
}

/// Reads a 16-bit number from its decimal digits, with or without a plus
/// sign in front.
pub fn parse_u16(text: &str) -> (number: Option<u16>)
    ensures
        number == spec_parse_u16(text@),
{
    let total = text.unicode_len();
    if total == 0 {
        return None;
    }
    let start: usize = if text.get_char(0) == '+' {
        1
    } else {
        0
    };
    if start == total {
        return None;
    }
    let ghost digits = unsigned_part(text@);
    let mut value: u32 = 0;
    let mut at: usize = 0;
    assert(digits.take(0) =~= Seq::<char>::empty());
    for c in it: text.chars()
        invariant
            at == it.index(),
            it.seq() == text@,
            total == text@.len(),
            start <= 1,
            start < total,
            digits == unsigned_part(text@),
            digits.len() == total - start,
            forall|i: int| 0 <= i < digits.len() ==> digits[i] == text@[i + start],
            at >= start ==> decimal_value(digits.take(at - start)) == Some(value as nat),
            at < start ==> value == 0,
            value <= u16::MAX,
    {
        if at >= start {
            let ghost seen = digits.take(at - start);
            let ghost next = digits.take(at - start + 1);
            proof {
                assert(next.drop_last() =~= seen);
                assert(next.last() == c);
                lemma_decimal_value_grows(digits, at - start + 1);
            }
            match digit_of(c) {
                Some(digit) => {
                    value = value * 10 + digit;
                    if value > 65535 {
                        return None;
                    }
                },
                None => {
                    return None;
                },
            }
        }
        at = at + 1;
    }
    assert(digits.take(total - start) =~= digits);
    Some(value as u16)
}

} // verus!
