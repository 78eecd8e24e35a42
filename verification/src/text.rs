//! Characters: white space, searching, trimming, and reading numbers.

use vstd::prelude::*;
use vstd::slice::slice_subrange;
use vstd::string::StrSliceExecFns;

verus! {

/// Whether `c` is white space, as Unicode defines it.
pub open spec fn is_space(c: char) -> bool {
    ||| '\u{9}' <= c <= '\u{d}'
    ||| c == ' '
    ||| c == '\u{85}'
    ||| c == '\u{a0}'
    ||| c == '\u{1680}'
    ||| '\u{2000}' <= c <= '\u{200a}'
    ||| c == '\u{2028}'
    ||| c == '\u{2029}'
    ||| c == '\u{202f}'
    ||| c == '\u{205f}'
    ||| c == '\u{3000}'
}

/// A set of characters to look for.
#[derive(Clone, Copy, Debug)]
pub enum CharClass {
    /// This character.
    Is(char),
    /// Any white space.
    Space,
    /// Anything but white space.
    NotSpace,
}

impl CharClass {
    /// Whether `c` is in the set.
    pub open spec fn spec_holds(self, c: char) -> bool {
        match self {
            CharClass::Is(wanted) => c == wanted,
            CharClass::Space => is_space(c),
            CharClass::NotSpace => !is_space(c),
        }
    }

    /// Whether `c` is in the set.
    pub fn holds(self, c: char) -> (held: bool)
        ensures
            held == self.spec_holds(c),
    {
        let space = ('\u{9}' <= c && c <= '\u{d}') || c == ' ' || c == '\u{85}' || c == '\u{a0}'
            || c == '\u{1680}' || ('\u{2000}' <= c && c <= '\u{200a}') || c == '\u{2028}' || c
            == '\u{2029}' || c == '\u{202f}' || c == '\u{205f}' || c == '\u{3000}';
        match self {
            CharClass::Is(wanted) => c == wanted,
            CharClass::Space => space,
            CharClass::NotSpace => !space,
        }
    }
}

/// Where the first character of `class` stands in `text`, or the length of `text` if it holds
/// none.
pub open spec fn spec_find(text: Seq<char>, class: CharClass) -> int
    decreases text.len(),
{
    if text.len() == 0 || class.spec_holds(text[0]) {
        0
    } else {
        1 + spec_find(text.drop_first(), class)
    }
}

/// What `spec_find` finds is the first character of the class: it stands within the text or at
/// its end, and no character of the class stands before it.
pub proof fn lemma_find_is_first(text: Seq<char>, class: CharClass)
    ensures
        0 <= spec_find(text, class) <= text.len(),
        spec_find(text, class) < text.len() ==> class.spec_holds(text[spec_find(text, class)]),
        forall|i: int| 0 <= i < spec_find(text, class) ==> !class.spec_holds(#[trigger] text[i]),
    decreases text.len(),
{
    if text.len() == 0 || class.spec_holds(text[0]) {
    } else {
        lemma_find_is_first(text.drop_first(), class);
        assert forall|i: int| 0 <= i < spec_find(text, class) implies !class.spec_holds(
            #[trigger] text[i],
        ) by {
            if i > 0 {
                assert(text.drop_first()[i - 1] == text[i]);
            }
        }
    }
}

/// How much of `text` is left when the white space at its end is cut off.
pub open spec fn spec_trimmed_len(text: Seq<char>) -> int
    decreases text.len(),
{
    if text.len() == 0 || !is_space(text.last()) {
        text.len() as int
    } else {
        spec_trimmed_len(text.drop_last())
    }
}

/// `text` without the white space at its start and at its end.
pub open spec fn spec_trim(text: Seq<char>) -> Seq<char> {
    let rest = text.skip(spec_find(text, CharClass::NotSpace));
    rest.take(spec_trimmed_len(rest))
}

/// The number that the decimal digits `digits` write.
pub open spec fn digits_value(digits: Seq<char>) -> nat
    decreases digits.len(),
{
    if digits.len() == 0 {
        0
    } else {
        digits_value(digits.drop_last()) * 10 + (digits.last() as nat - '0' as nat) as nat
    }
}

/// Whether `text` is made of decimal digits, and of one at least.
pub open spec fn is_digits(text: Seq<char>) -> bool {
    text.len() > 0 && forall|i: int| 0 <= i < text.len() ==> '0' <= #[trigger] text[i] <= '9'
}

/// The number that `text` writes: decimal digits, with or without a plus sign before them, and
/// nothing else. There is none where the number does not fit into 64 bits.
pub open spec fn spec_parse_u64(text: Seq<char>) -> Option<u64> {
    let digits = if text.len() > 0 && text[0] == '+' {
        text.drop_first()
    } else {
        text
    };
    if is_digits(digits) && digits_value(digits) <= u64::MAX {
        Some(digits_value(digits) as u64)
    } else {
        None
    }
}

/// A number grows with every digit that is written behind it.
proof fn lemma_digits_value_grows(digits: Seq<char>, n: int)
    requires
        0 <= n <= digits.len(),
        forall|i: int| 0 <= i < digits.len() ==> '0' <= #[trigger] digits[i] <= '9',
    ensures
        digits_value(digits.take(n)) <= digits_value(digits),
    decreases digits.len() - n,
{
    if n == digits.len() {
        assert(digits.take(n) =~= digits);
    } else {
        lemma_digits_value_grows(digits, n + 1);
        assert(digits.take(n + 1).drop_last() =~= digits.take(n));
    }
}

/// The characters of `text`.
pub fn chars_of(text: &str) -> (chars: Vec<char>)
    ensures
        chars@ == text@,
{
    let len = text.unicode_len();
    let mut chars: Vec<char> = Vec::new();
    let mut i: usize = 0;
    while i < len
        invariant
            i <= len,
            len == text@.len(),
            chars@ == text@.take(i as int),
        decreases len - i,
    {
        chars.push(text.get_char(i));
        assert(chars@ =~= text@.take(i + 1));
        i += 1;
    }
    assert(text@.take(len as int) =~= text@);
    chars
}

/// Where the first character of `class` stands in `text`, or the length of `text` if it holds
/// none.
pub fn find(text: &[char], class: CharClass) -> (at: usize)
    ensures
        at == spec_find(text@, class),
        at <= text@.len(),
{
    let mut at: usize = 0;
    assert(text@.skip(0) =~= text@);
    while at < text.len() && !class.holds(text[at])
        invariant
            at <= text@.len(),
            spec_find(text@, class) == at + spec_find(text@.skip(at as int), class),
        decreases text@.len() - at,
    {
        assert(text@.skip(at as int).drop_first() =~= text@.skip(at + 1));
        at += 1;
    }
    at
}

/// `text` without the white space at its start and at its end.
pub fn trim(text: &[char]) -> (trimmed: &[char])
    ensures
        trimmed@ == spec_trim(text@),
{
    let start = find(text, CharClass::NotSpace);
    let ghost rest = text@.skip(start as int);
    let mut end = text.len();
    assert(text@.subrange(start as int, end as int) =~= rest);
    while end > start && CharClass::Space.holds(text[end - 1])
        invariant
            start <= end <= text@.len(),
            rest == text@.skip(start as int),
            spec_trimmed_len(rest) == spec_trimmed_len(text@.subrange(start as int, end as int)),
        decreases end,
    {
        assert(text@.subrange(start as int, end as int).drop_last() =~= text@.subrange(
            start as int,
            end - 1,
        ));
        end -= 1;
    }
    assert(rest.take(end - start) =~= text@.subrange(start as int, end as int));
    slice_subrange(text, start, end)
}

/// Reads a number from decimal digits with or without a plus sign before them.
pub fn parse_u64(text: &[char]) -> (number: Option<u64>)
    ensures
        number == spec_parse_u64(text@),
{
    let start: usize = if text.len() > 0 && text[0] == '+' {
        1
    } else {
        0
    };
    let ghost digits = text@.skip(start as int);
    assert(start == 1 ==> digits =~= text@.drop_first());
    assert(start == 0 ==> digits =~= text@);
    if start == text.len() {
        return None;
    }
    let mut value: u64 = 0;
    let mut i: usize = start;
    assert(digits.take(0) =~= Seq::<char>::empty());
    while i < text.len()
        invariant
            start <= i <= text@.len(),
            digits == text@.skip(start as int),
            digits == (if text@.len() > 0 && text@[0] == '+' {
                text@.drop_first()
            } else {
                text@
            }),
            forall|j: int| 0 <= j < i - start ==> '0' <= #[trigger] digits[j] <= '9',
            value == digits_value(digits.take(i - start)),
        decreases text@.len() - i,
    {
        let c = text[i];
        assert(digits[i - start] == c);
        if !('0' <= c && c <= '9') {
            return None;
        }
        let digit = (c as u32 - '0' as u32) as u64;
        assert(digits.take(i - start + 1).drop_last() =~= digits.take(i - start));
        let ghost next = digits_value(digits.take(i - start + 1));
        assert(next == value * 10 + digit);
        let grown = match value.checked_mul(10) {
            Some(tens) => tens.checked_add(digit),
            None => None,
        };
        match grown {
            Some(grown) => {
                value = grown;
            },
            None => {
                proof {
                    if is_digits(digits) {
                        lemma_digits_value_grows(digits, i - start + 1);
                    }
                }
                return None;
            },
        }
        i += 1;
    }
    assert(digits.take(digits.len() as int) =~= digits);
    Some(value)
}

} // verus!
