//! Text operations over `Seq<char>`, and executable functions that carry them out.
use vstd::prelude::*;

verus! {

/// `String::push` appends the given character to the end of the string.
pub assume_specification[ String::push ](s: &mut String, c: char)
    ensures
        final(s)@ == old(s)@.push(c),
;

/// The ASCII lower case of one character; every other character is left alone.
pub open spec fn ascii_lower_char(c: char) -> char {
    if 'A' <= c && c <= 'Z' {
        ((c as u8) + 32) as char
    } else {
        c
    }
}

/// A text with each ASCII capital replaced by its small letter.
pub open spec fn ascii_lower(s: Seq<char>) -> Seq<char> {
    s.map_values(|c: char| ascii_lower_char(c))
}

/// A text with each occurrence of one character replaced by another.
pub open spec fn replace_char(s: Seq<char>, from: char, to: char) -> Seq<char> {
    s.map_values(|c: char| if c == from { to } else { c })
}

/// The characters that have the Unicode property `White_Space`.
pub open spec fn is_white_space(c: char) -> bool {
    ||| '\u{9}' <= c && c <= '\u{d}'
    ||| c == '\u{20}'
    ||| c == '\u{85}'
    ||| c == '\u{a0}'
    ||| c == '\u{1680}'
    ||| '\u{2000}' <= c && c <= '\u{200a}'
    ||| c == '\u{2028}'
    ||| c == '\u{2029}'
    ||| c == '\u{202f}'
    ||| c == '\u{205f}'
    ||| c == '\u{3000}'
}

/// A text without its leading white space.
pub open spec fn trim_start(s: Seq<char>) -> Seq<char>
    decreases s.len(),
{
    if s.len() > 0 && is_white_space(s[0]) {
        trim_start(s.skip(1))
    } else {
        s
    }
}

/// A text without its trailing white space.
pub open spec fn trim_end(s: Seq<char>) -> Seq<char>
    decreases s.len(),
{
    if s.len() > 0 && is_white_space(s.last()) {
        trim_end(s.drop_last())
    } else {
        s
    }
}

/// A text without the white space at both of its ends.
pub open spec fn trim(s: Seq<char>) -> Seq<char> {
    trim_end(trim_start(s))
}

/// A text without any leading run of the character `c`.
pub open spec fn trim_start_char(s: Seq<char>, c: char) -> Seq<char>
    decreases s.len(),
{
    if s.len() > 0 && s[0] == c {
        trim_start_char(s.skip(1), c)
    } else {
        s
    }
}

/// A text without any trailing run of the character `c`.
pub open spec fn trim_end_char(s: Seq<char>, c: char) -> Seq<char>
    decreases s.len(),
{
    if s.len() > 0 && s.last() == c {
        trim_end_char(s.drop_last(), c)
    } else {
        s
    }
}

/// A text without any leading run of copies of `prefix`.
pub open spec fn trim_start_text(s: Seq<char>, prefix: Seq<char>) -> Seq<char>
    decreases s.len(),
{
    if prefix.len() > 0 && prefix.is_prefix_of(s) {
        trim_start_text(s.skip(prefix.len() as int), prefix)
    } else {
        s
    }
}

/// The part of a text that stands before the first `c`; all of it where there is none.
pub open spec fn before_char(s: Seq<char>, c: char) -> Seq<char>
    decreases s.len(),
{
    if s.len() == 0 || s[0] == c {
        Seq::empty()
    } else {
        seq![s[0]] + before_char(s.skip(1), c)
    }
}

/// The character that stands for a decimal digit.
pub open spec fn digit_char(d: nat) -> char {
    (48 + d) as char
}

/// A number in decimal notation, without leading zeros.
pub open spec fn decimal(n: nat) -> Seq<char>
    decreases n,
{
    if n < 10 {
        seq![digit_char(n)]
    } else {
        decimal(n / 10).push(digit_char(n % 10))
    }
}

/// The characters of a text, in order.
pub fn chars_of(s: &str) -> (chars: Vec<char>)
    ensures
        chars@ == s@,
{
    let mut chars: Vec<char> = Vec::new();
    for c in it: s.chars()
        invariant
            it.seq() == s@,
            chars@ == s@.take(it.index() as int),
    {
        chars.push(c);
    }
    chars
}

/// Whether two texts are the same.
pub fn same_text(a: &str, b: &str) -> (same: bool)
    ensures
        same == (a@ == b@),
{
    a.to_owned() == b.to_owned()
}

/// The text `a` followed by the text `b`.
pub fn join2(a: &str, b: &str) -> (joined: String)
    ensures
        joined@ == a@ + b@,
{
    let mut joined: String = a.to_owned();
    joined.append(b);
    joined
}

/// The texts `a`, `b` and `c`, one after the other.
pub fn join3(a: &str, b: &str, c: &str) -> (joined: String)
    ensures
        joined@ == a@ + b@ + c@,
{
    let mut joined: String = a.to_owned();
    joined.append(b);
    joined.append(c);
    joined
}

/// Computes [`ascii_lower_char`].
pub fn lower_char(c: char) -> (lower: char)
    ensures
        lower == ascii_lower_char(c),
{
    if 'A' <= c && c <= 'Z' {
        ((c as u8) + 32) as char
    } else {
        c
    }
}

/// Computes [`ascii_lower`].
pub fn to_ascii_lower(s: &str) -> (lower: String)
    ensures
        lower@ == ascii_lower(s@),
{
    let mut lower: String = String::new();
    for c in it: s.chars()
        invariant
            it.seq() == s@,
            lower@ == ascii_lower(s@.take(it.index() as int)),
    {
        lower.push(lower_char(c));
        assert(s@.take(it.index() + 1) == s@.take(it.index() as int).push(c));
    }
    assert(s@.take(s@.len() as int) == s@);
    lower
}

/// Computes [`replace_char`].
pub fn with_char_replaced(s: &str, from: char, to: char) -> (replaced: String)
    ensures
        replaced@ == replace_char(s@, from, to),
{
    let mut replaced: String = String::new();
    for c in it: s.chars()
        invariant
            it.seq() == s@,
            replaced@ == replace_char(s@.take(it.index() as int), from, to),
    {
        replaced.push(
            if c == from {
                to
            } else {
                c
            },
        );
        assert(s@.take(it.index() + 1) == s@.take(it.index() as int).push(c));
    }
    assert(s@.take(s@.len() as int) == s@);
    replaced
}

/// Computes [`is_white_space`].
pub fn is_space(c: char) -> (space: bool)
    ensures
        space == is_white_space(c),
{
    ('\u{9}' <= c && c <= '\u{d}') || c == '\u{20}' || c == '\u{85}' || c == '\u{a0}' || c
        == '\u{1680}' || ('\u{2000}' <= c && c <= '\u{200a}') || c == '\u{2028}' || c == '\u{2029}'
        || c == '\u{202f}' || c == '\u{205f}' || c == '\u{3000}'
}

/// Computes [`trim`].
pub fn trimmed(s: &str) -> (inner: &str)
    ensures
        inner@ == trim(s@),
{
    let chars = chars_of(s);
    let mut start: usize = 0;
    assert(s@.skip(0) == s@);
    while start < chars.len() && is_space(chars[start])
        invariant
            chars@ == s@,
            start <= chars.len(),
            trim_start(s@) == trim_start(s@.skip(start as int)),
        decreases chars.len() - start,
    {
        assert(s@.skip(start as int).skip(1) == s@.skip(start + 1));
        start = start + 1;
    }
    let mut end: usize = chars.len();
    assert(s@.subrange(start as int, end as int) == s@.skip(start as int));
    while end > start && is_space(chars[end - 1])
        invariant
            chars@ == s@,
            start <= end <= chars.len(),
            trim(s@) == trim_end(s@.subrange(start as int, end as int)),
        decreases end,
    {
        assert(s@.subrange(start as int, end as int).drop_last() == s@.subrange(
            start as int,
            end - 1,
        ));
        end = end - 1;
    }
    s.substring_char(start, end)
}

/// Computes [`trim_start_char`].
pub fn without_leading_char(s: &str, c: char) -> (rest: &str)
    ensures
        rest@ == trim_start_char(s@, c),
{
    let chars = chars_of(s);
    let mut start: usize = 0;
    assert(s@.skip(0) == s@);
    while start < chars.len() && chars[start] == c
        invariant
            chars@ == s@,
            start <= chars.len(),
            trim_start_char(s@, c) == trim_start_char(s@.skip(start as int), c),
        decreases chars.len() - start,
    {
        assert(s@.skip(start as int).skip(1) == s@.skip(start + 1));
        start = start + 1;
    }
    assert(s@.subrange(start as int, s@.len() as int) == s@.skip(start as int));
    s.substring_char(start, chars.len())
}

/// Computes [`trim_end_char`].
pub fn without_trailing_char(s: &str, c: char) -> (rest: &str)
    ensures
        rest@ == trim_end_char(s@, c),
{
    let chars = chars_of(s);
    let mut end: usize = chars.len();
    assert(s@.take(s@.len() as int) == s@);
    while end > 0 && chars[end - 1] == c
        invariant
            chars@ == s@,
            end <= chars.len(),
            trim_end_char(s@, c) == trim_end_char(s@.take(end as int), c),
        decreases end,
    {
        assert(s@.take(end as int).drop_last() == s@.take(end - 1));
        end = end - 1;
    }
    assert(s@.subrange(0, end as int) == s@.take(end as int));
    s.substring_char(0, end)
}

/// Whether `s` begins with `prefix`.
pub fn has_prefix(s: &str, prefix: &str) -> (has: bool)
    ensures
        has == prefix@.is_prefix_of(s@),
{
    let n: usize = prefix.unicode_len();
    if n > s.unicode_len() {
        return false;
    }
    same_text(s.substring_char(0, n), prefix)
}

/// Whether `s` ends with `suffix`.
pub fn has_suffix(s: &str, suffix: &str) -> (has: bool)
    ensures
        has == suffix@.is_suffix_of(s@),
{
    let n: usize = suffix.unicode_len();
    let len: usize = s.unicode_len();
    if n > len {
        return false;
    }
    same_text(s.substring_char(len - n, len), suffix)
}

/// Computes [`trim_start_text`].
pub fn without_leading_text<'a>(s: &'a str, prefix: &str) -> (rest: &'a str)
    ensures
        rest@ == trim_start_text(s@, prefix@),
{
    let n: usize = prefix.unicode_len();
    if n == 0 {
        return s;
    }
    let mut rest: &'a str = s;
    while has_prefix(rest, prefix)
        invariant
            n == prefix@.len(),
            n > 0,
            trim_start_text(s@, prefix@) == trim_start_text(rest@, prefix@),
        decreases rest@.len(),
    {
        let len: usize = rest.unicode_len();
        assert(rest@.subrange(n as int, len as int) == rest@.skip(n as int));
        rest = rest.substring_char(n, len);
    }
    rest
}

/// Computes [`before_char`].
pub fn up_to_char(s: &str, c: char) -> (head: &str)
    ensures
        head@ == before_char(s@, c),
{
    let chars = chars_of(s);
    let mut end: usize = 0;
    assert(s@.skip(0) == s@);
    assert(s@.take(0) + before_char(s@, c) == before_char(s@, c));
    while end < chars.len() && chars[end] != c
        invariant
            chars@ == s@,
            end <= chars.len(),
            before_char(s@, c) == s@.take(end as int) + before_char(s@.skip(end as int), c),
        decreases chars.len() - end,
    {
        assert(s@.skip(end as int).skip(1) == s@.skip(end + 1));
        assert(s@.take(end as int) + (seq![s@[end as int]] + before_char(s@.skip(end + 1), c))
            == s@.take(end + 1) + before_char(s@.skip(end + 1), c));
        end = end + 1;
    }
    assert(s@.take(end as int) + Seq::<char>::empty() == s@.subrange(0, end as int));
    s.substring_char(0, end)
}

/// Appends [`decimal`] of `n` to `out`.
pub fn push_decimal(out: &mut String, n: u64)
    ensures
        final(out)@ == old(out)@ + decimal(n as nat),
    decreases n,
{
    if n >= 10 {
        push_decimal(out, n / 10);
    }
    let digit: u8 = (n % 10) as u8;
    out.push((48 + digit) as char);
    assert(out@ == old(out)@ + decimal(n as nat));
}

/// Computes [`decimal`].
pub fn to_decimal(n: u64) -> (digits: String)
    ensures
        digits@ == decimal(n as nat),
{
    let mut digits: String = String::new();
    push_decimal(&mut digits, n);
    digits
}

/// The UTF-8 form of a text takes at most four bytes a character.
pub proof fn utf8_takes_four_bytes_at_most(s: Seq<char>)
    ensures
        vstd::utf8::encode_utf8(s).len() <= 4 * s.len(),
    decreases s.len(),
{
    if s.len() > 0 {
        utf8_takes_four_bytes_at_most(s.drop_first());
    }
}

/// Two numbers never share their decimal notation.
pub proof fn decimals_are_distinct(a: nat, b: nat)
    requires
        decimal(a) == decimal(b),
    ensures
        a == b,
    decreases a,
{
    assert(decimal(a).last() == digit_char(a % 10));
    assert(decimal(b).last() == digit_char(b % 10));
    assert(a % 10 == b % 10);
    if a >= 10 {
        lemma_decimal_not_empty(a / 10);
        if b < 10 {
            assert(decimal(a).len() == 1);
        } else {
            assert(decimal(a).drop_last() == decimal(a / 10));
            assert(decimal(b).drop_last() == decimal(b / 10));
            decimals_are_distinct(a / 10, b / 10);
        }
    } else if b >= 10 {
        lemma_decimal_not_empty(b / 10);
        assert(decimal(b).len() == 1);
    }
}

proof fn lemma_decimal_not_empty(n: nat)
    ensures
        decimal(n).len() > 0,
{
}

} // verus!
