//! Text helpers: what the rules of the other modules read from a string.
use vstd::prelude::*;

verus! {

/// The texts of a list of strings.
pub open spec fn texts(strings: Seq<String>) -> Seq<Seq<char>> {
    strings.map_values(|s: String| s@)
}

/// The text of a string that may be absent.
pub open spec fn optional_text(string: Option<String>) -> Option<Seq<char>> {
    match string {
        Some(s) => Some(s@),
        None => None,
    }
}

/// The text of a string slice that may be absent.
pub open spec fn slice_text(slice: Option<&str>) -> Option<Seq<char>> {
    match slice {
        Some(s) => Some(s@),
        None => None,
    }
}

/// Whether `pattern` stands in `text` at position `at`.
pub open spec fn occurs_at(text: Seq<char>, pattern: Seq<char>, at: int) -> bool {
    &&& 0 <= at
    &&& at + pattern.len() <= text.len()
    &&& text.subrange(at, at + pattern.len()) == pattern
}

/// Whether `pattern` is a sub-slice of `text`.
pub open spec fn occurs_in(text: Seq<char>, pattern: Seq<char>) -> bool {
    exists|at: int| occurs_at(text, pattern, at)
}

/// Whether `text` starts with `prefix`.
pub open spec fn starts_with(text: Seq<char>, prefix: Seq<char>) -> bool {
    prefix.len() <= text.len() && text.take(prefix.len() as int) == prefix
}

/// Whether `text` is one decimal digit after the other, and at least one.
pub open spec fn is_digits(text: Seq<char>) -> bool {
    text.len() > 0 && forall|i: int| 0 <= i < text.len() ==> '0' <= #[trigger] text[i] <= '9'
}

/// The number that a run of decimal digits denotes.
pub open spec fn digits_value(text: Seq<char>) -> int
    decreases text.len(),
{
    if text.len() == 0 {
        0
    } else {
        digits_value(text.drop_last()) * 10 + (text.last() as int - '0' as int)
    }
}

/// The integer that `text` denotes: an optional sign, then decimal digits and nothing else.
pub open spec fn integer_value(text: Seq<char>) -> Option<int> {
    if is_digits(text) {
        Some(digits_value(text))
    } else if text.len() > 0 && text[0] == '+' && is_digits(text.skip(1)) {
        Some(digits_value(text.skip(1)))
    } else if text.len() > 0 && text[0] == '-' && is_digits(text.skip(1)) {
        Some(-digits_value(text.skip(1)))
    } else {
        None
    }
}

/// The decimal digits of a natural number, without leading zeros.
pub open spec fn decimal_digits(n: nat) -> Seq<char>
    decreases n,
{
    let last = ('0' as int + n % 10) as char;
    if n < 10 {
        seq![last]
    } else {
        decimal_digits(n / 10).push(last)
    }
}

/// The decimal text of an integer: its digits, after a minus sign where it is negative.
pub open spec fn decimal(n: int) -> Seq<char> {
    if n < 0 {
        seq!['-'] + decimal_digits((-n) as nat)
    } else {
        decimal_digits(n as nat)
    }
}

/// The characters with the Unicode property White_Space.
pub open spec fn is_white_space(c: char) -> bool {
    ||| '\u{9}' <= c <= '\u{d}'
    ||| c == ' '
    ||| c == '\u{85}'
    ||| c == '\u{a0}'
    ||| c == '\u{1680}'
    ||| '\u{2000}' <= c <= '\u{200a}'
    ||| c == '\u{2028}'
    ||| c == '\u{2029}'
    ||| c == '\u{202f}'
    ||| c == '\u{205f}'
    ||| c == '\u{3000}'
}

/// `text` without the white space at its start and at its end.
pub open spec fn trimmed(text: Seq<char>) -> Seq<char>
    decreases text.len(),
{
    if text.len() == 0 {
        text
    } else if is_white_space(text[0]) {
        trimmed(text.drop_first())
    } else if is_white_space(text.last()) {
        trimmed(text.drop_last())
    } else {
        text
    }
}

/// `str == str` of std: two string slices are equal where they hold the same characters.
pub assume_specification[ <str as PartialEq<str>>::eq ](a: &str, b: &str) -> (same: bool)
    ensures
        same == (a@ == b@),
;

/// `String::push` of std: the character comes after those that the string held.
pub assume_specification[ String::push ](string: &mut String, c: char)
    ensures
        final(string)@ == old(string)@.push(c),
;

/// Whether a character is white space.
pub fn is_whitespace(c: char) -> (white: bool)
    ensures
        white == is_white_space(c),
{
    ('\u{9}' <= c && c <= '\u{d}') || c == ' ' || c == '\u{85}' || c == '\u{a0}' || c == '\u{1680}'
        || ('\u{2000}' <= c && c <= '\u{200a}') || c == '\u{2028}' || c == '\u{2029}' || c
        == '\u{202f}' || c == '\u{205f}' || c == '\u{3000}'
}

/// A run of digits denotes no less than the digits that it starts with.
proof fn lemma_prefix_value(text: Seq<char>, n: int)
    requires
        is_digits(text),
        0 <= n <= text.len(),
    ensures
        0 <= digits_value(text.take(n)) <= digits_value(text),
    decreases text.len(),
{
    let rest = text.drop_last();
    if n == text.len() {
        assert(text.take(n) == text);
        if rest.len() > 0 {
            lemma_prefix_value(rest, rest.len() as int);
            assert(rest.take(rest.len() as int) == rest);
        }
    } else {
        assert(text.take(n) == rest.take(n));
        if rest.len() > 0 {
            lemma_prefix_value(rest, n);
        }
    }
}

/// The number that the characters from `start` on denote, where they are decimal digits and it is
/// at most the magnitude of the least `i64`.
fn parse_digits(chars: &Vec<char>, start: usize) -> (parsed: Option<i128>)
    requires
        start <= chars@.len(),
    ensures
        match parsed {
            Some(n) => {
                &&& is_digits(chars@.skip(start as int))
                &&& n == digits_value(chars@.skip(start as int))
                &&& 0 <= n <= -(i64::MIN)
            },
            None => is_digits(chars@.skip(start as int)) ==> digits_value(
                chars@.skip(start as int),
            ) > -(i64::MIN),
        },
{
    let ghost text = chars@.skip(start as int);
    if start == chars.len() {
        return None;
    }
    let mut value: i128 = 0;
    let mut i: usize = start;
    while i < chars.len()
        invariant
            start <= i <= chars@.len(),
            text == chars@.skip(start as int),
            forall|j: int| 0 <= j < i - start ==> '0' <= #[trigger] text[j] <= '9',
            value == digits_value(text.take(i - start)),
            0 <= value <= -(i64::MIN),
        decreases chars.len() - i,
    {
        let c = chars[i];
        assert(text[i - start] == c);
        if !('0' <= c && c <= '9') {
            return None;
        }
        value = value * 10 + (c as u32 - '0' as u32) as i128;
        i = i + 1;
        assert(text.take(i - start).drop_last() == text.take(i - start - 1));
        if value > -(i64::MIN as i128) {
            proof {
                if is_digits(text) {
                    lemma_prefix_value(text, i - start);
                }
            }
            return None;
        }
    }
    assert(text.take(i - start) == text);
    Some(value)
}

/// The integer that a text denotes, where an `i64` can hold it.
pub fn parse_i64(text: &str) -> (parsed: Option<i64>)
    ensures
        parsed == match integer_value(text@) {
            Some(n) => if i64::MIN <= n <= i64::MAX {
                Some(n as i64)
            } else {
                None
            },
            None => None,
        },
{
    let chars = chars_of(text);
    if chars.len() == 0 {
        return None;
    }
    assert(text@.skip(0) == text@);
    if chars[0] == '-' {
        match parse_digits(&chars, 1) {
            Some(n) => Some((-n) as i64),
            None => None,
        }
    } else {
        let start: usize = if chars[0] == '+' {
            1
        } else {
            0
        };
        match parse_digits(&chars, start) {
            Some(n) => if n <= i64::MAX as i128 {
                Some(n as i64)
            } else {
                None
            },
            None => None,
        }
    }
}

/// Adds the decimal digits of a number to `out`.
fn push_digits(out: &mut String, n: u64)
    ensures
        final(out)@ == old(out)@ + decimal_digits(n as nat),
    decreases n,
{
    if n >= 10 {
        push_digits(out, n / 10);
    }
    let digit: u8 = 48 + (n % 10) as u8;
    out.push(digit as char);
    assert(out@ =~= old(out)@ + decimal_digits(n as nat));
}

/// The decimal text of an integer.
pub fn i64_to_string(n: i64) -> (written: String)
    ensures
        written@ == decimal(n as int),
{
    let mut written = String::new();
    if n < 0 {
        written.push('-');
        push_digits(&mut written, (-(n as i128)) as u64);
    } else {
        push_digits(&mut written, n as u64);
    }
    assert(written@ =~= decimal(n as int));
    written
}

/// The characters of a string slice.
pub fn chars_of(text: &str) -> (chars: Vec<char>)
    ensures
        chars@ == text@,
{
    let mut chars: Vec<char> = Vec::new();
    for c in it: text.chars()
        invariant
            it.seq() == text@,
            chars@ == text@.take(it.index() as int),
    {
        chars.push(c);
    }
    chars
}

/// `second` after `first`.
pub fn joined(first: &str, second: &str) -> (both: String)
    ensures
        both@ == first@ + second@,
{
    let mut both = first.to_owned();
    both.append(second);
    both
}

/// Whether `pattern` is a sub-slice of `text`.
pub fn contains(text: &str, pattern: &str) -> (found: bool)
    ensures
        found == occurs_in(text@, pattern@),
        found <==> exists|at: int|
            0 <= at <= text@.len() - pattern@.len() && text@ == #[trigger] text@.take(at) + pattern@
                + text@.skip(at + pattern@.len()),
{
    proof {
        law_occurrence_splits_the_text(text@, pattern@);
    }
    let chars = chars_of(text);
    let wanted = chars_of(pattern);
    if wanted.len() > chars.len() {
        return false;
    }
    let mut at: usize = 0;
    while at <= chars.len() - wanted.len()
        invariant
            chars@ == text@,
            wanted@ == pattern@,
            wanted.len() <= chars.len(),
            at <= chars.len() - wanted.len() + 1,
            forall|p: int| 0 <= p < at ==> !occurs_at(text@, pattern@, p),
        decreases chars.len() + 1 - at,
    {
        let mut matched: usize = 0;
        while matched < wanted.len() && chars[at + matched] == wanted[matched]
            invariant
                matched <= wanted.len(),
                at + wanted.len() <= chars.len(),
                forall|j: int| 0 <= j < matched ==> chars[at + j] == wanted[j],
            decreases wanted.len() - matched,
        {
            matched = matched + 1;
        }
        if matched == wanted.len() {
            assert(text@.subrange(at as int, at + wanted.len()) =~= pattern@);
            assert(occurs_at(text@, pattern@, at as int));
            proof {
                law_occurrence_splits_the_text(text@, pattern@);
            }
            return true;
        }
        proof {
            if occurs_at(text@, pattern@, at as int) {
                assert(text@.subrange(at as int, at + pattern@.len())[matched as int]
                    == pattern@[matched as int]);
            }
        }
        at = at + 1;
    }
    false
}

/// What follows `prefix` in `text`, where `text` starts with it.
pub fn strip_prefix<'a>(text: &'a str, prefix: &str) -> (rest: Option<&'a str>)
    ensures
        rest is Some <==> starts_with(text@, prefix@),
        rest matches Some(r) ==> r@ == text@.skip(prefix@.len() as int),
        rest matches Some(r) ==> text@ == prefix@ + r@,
        rest is None ==> forall|r: Seq<char>| text@ != #[trigger] (prefix@ + r),
{
    proof {
        law_prefix_is_what_comes_first(text@, prefix@);
    }
    let len = text.unicode_len();
    let prefix_len = prefix.unicode_len();
    if prefix_len <= len && *text.substring_char(0, prefix_len) == *prefix {
        Some(text.substring_char(prefix_len, len))
    } else {
        None
    }
}

/// The texts of a list of strings are those of its strings, one by one.
pub proof fn law_texts_are_those_of_the_strings(strings: Seq<String>)
    ensures
        texts(strings).len() == strings.len(),
        forall|i: int| 0 <= i < strings.len() ==> #[trigger] texts(strings)[i] == strings[i]@,
{
}

/// A string that may be absent has a text exactly where it is there, and the text is its own.
pub proof fn law_optional_texts_are_whole(string: Option<String>, slice: Option<&str>)
    ensures
        string is Some <==> optional_text(string) is Some,
        string matches Some(s) ==> optional_text(string) == Some(s@),
        slice is Some <==> slice_text(slice) is Some,
        slice matches Some(s) ==> slice_text(slice) == Some(s@),
{
}

/// A pattern occurs in any text that is made by putting something before it and after it.
pub proof fn law_pattern_occurs_where_it_was_put(
    before: Seq<char>,
    pattern: Seq<char>,
    after: Seq<char>,
)
    ensures
        occurs_in(before + pattern + after, pattern),
{
    let text = before + pattern + after;
    let at = before.len() as int;
    assert(text.subrange(at, at + pattern.len()) =~= pattern);
    assert(occurs_at(text, pattern, at));
}

/// A pattern occurs in a text exactly where the text is something, then the pattern, then
/// something.
pub proof fn law_occurrence_splits_the_text(text: Seq<char>, pattern: Seq<char>)
    ensures
        occurs_in(text, pattern) <==> exists|at: int|
            0 <= at <= text.len() - pattern.len() && text == #[trigger] text.take(at) + pattern
                + text.skip(at + pattern.len()),
{
    if occurs_in(text, pattern) {
        let at = choose|at: int| occurs_at(text, pattern, at);
        assert(text.take(at) + text.subrange(at, at + pattern.len()) + text.skip(
            at + pattern.len(),
        ) =~= text);
    }
    if exists|at: int|
        0 <= at <= text.len() - pattern.len() && text == #[trigger] text.take(at) + pattern
            + text.skip(at + pattern.len()) {
        let at = choose|at: int|
            0 <= at <= text.len() - pattern.len() && text == #[trigger] text.take(at) + pattern
                + text.skip(at + pattern.len());
        law_pattern_occurs_where_it_was_put(text.take(at), pattern, text.skip(at + pattern.len()));
    }
}

/// A text starts with a prefix exactly where it is that prefix and then something.
pub proof fn law_prefix_is_what_comes_first(text: Seq<char>, prefix: Seq<char>)
    ensures
        starts_with(text, prefix) ==> text == prefix + text.skip(prefix.len() as int),
        forall|rest: Seq<char>| starts_with(#[trigger] (prefix + rest), prefix),
{
    assert forall|rest: Seq<char>| starts_with(#[trigger] (prefix + rest), prefix) by {
        assert((prefix + rest).take(prefix.len() as int) =~= prefix);
    }
    if starts_with(text, prefix) {
        assert(text =~= text.take(prefix.len() as int) + text.skip(prefix.len() as int));
    }
}

/// One more digit makes a number ten times as large and adds the digit; no digits are 0.
pub proof fn law_digits_count_in_tens(text: Seq<char>, c: char)
    ensures
        digits_value(Seq::empty()) == 0,
        digits_value(text.push(c)) == digits_value(text) * 10 + (c as int - 48),
        is_digits(text.push(c)) <==> (text.len() == 0 || is_digits(text)) && 48 <= c as int <= 57,
{
    assert(text.push(c).drop_last() == text);
    let pushed = text.push(c);
    if is_digits(pushed) {
        assert(forall|i: int| 0 <= i < text.len() ==> text[i] == #[trigger] pushed[i]);
        assert(forall|i: int| 0 <= i < text.len() ==> '0' <= #[trigger] text[i] <= '9');
        assert(pushed[text.len() as int] == c);
    }
}

/// The digits of a number denote that number, and do not start with a zero but for 0 itself.
pub proof fn law_decimal_digits_denote_the_number(n: nat)
    ensures
        is_digits(decimal_digits(n)),
        digits_value(decimal_digits(n)) == n,
        n == 0 ==> decimal_digits(n) == seq!['0'],
        n > 0 ==> decimal_digits(n)[0] != '0',
    decreases n,
{
    let last = ('0' as int + n % 10) as char;
    assert(last as int == 48 + n % 10);
    if n < 10 {
        assert(decimal_digits(n) =~= Seq::<char>::empty().push(last));
        law_digits_count_in_tens(Seq::empty(), last);
    } else {
        law_decimal_digits_denote_the_number(n / 10);
        law_digits_count_in_tens(decimal_digits(n / 10), last);
    }
}

/// A text denotes an integer exactly where it is digits, with a sign before them or not; a minus
/// sign turns the number around, and a plus sign does not.
pub proof fn law_integer_is_sign_and_digits(text: Seq<char>)
    ensures
        integer_value(text) is Some <==> {
            ||| is_digits(text)
            ||| text.len() > 0 && (text[0] == '+' || text[0] == '-') && is_digits(text.skip(1))
        },
        is_digits(text) ==> integer_value(text) == Some(digits_value(text)),
        is_digits(text) ==> integer_value(seq!['+'] + text) == Some(digits_value(text)),
        is_digits(text) ==> integer_value(seq!['-'] + text) == Some(-digits_value(text)),
{
    let plus = seq!['+'] + text;
    let minus = seq!['-'] + text;
    assert(plus[0] == '+' && minus[0] == '-');
    assert(plus.skip(1) =~= text);
    assert(minus.skip(1) =~= text);
}

/// What is written of an integer is read as that integer.
pub proof fn law_decimal_reads_back(n: int)
    ensures
        integer_value(decimal(n)) == Some(n),
{
    let magnitude = if n < 0 {
        (-n) as nat
    } else {
        n as nat
    };
    law_decimal_digits_denote_the_number(magnitude);
    law_integer_is_sign_and_digits(decimal_digits(magnitude));
}

/// White space is these characters, by their numbers, and no others.
pub proof fn law_white_space_by_number(c: char)
    ensures
        is_white_space(c) <==> {
            let n = c as int;
            9 <= n <= 13 || n == 32 || n == 133 || n == 160 || n == 5760 || 8192 <= n <= 8202 || n
                == 8232 || n == 8233 || n == 8239 || n == 8287 || n == 12288
        },
{
}

/// White space before a text or after it makes no difference to what is left of it once trimmed;
/// what neither starts nor ends with white space is left as it is.
pub proof fn law_trimmed_leaves_out_the_white_ends(text: Seq<char>, white: char)
    requires
        is_white_space(white),
    ensures
        trimmed(seq![white] + text) == trimmed(text),
        trimmed(text.push(white)) == trimmed(text),
        text.len() == 0 || !is_white_space(text[0]) && !is_white_space(text.last()) ==> trimmed(
            text,
        ) == text,
    decreases text.len(),
{
    let before = seq![white] + text;
    assert(before[0] == white);
    assert(before.drop_first() =~= text);
    let after = text.push(white);
    if text.len() == 0 {
        assert(after[0] == white);
        assert(after.drop_first() =~= text);
    } else if is_white_space(text[0]) {
        law_trimmed_leaves_out_the_white_ends(text.drop_first(), white);
        assert(after[0] == text[0]);
        assert(after.drop_first() =~= text.drop_first().push(white));
    } else {
        assert(after[0] == text[0]);
        assert(after.drop_last() =~= text);
    }
}

} // verus!
