//! Laws on texts: what is cut off, what is replaced, and what stays.
use crate::clock::time_since;
use crate::text;
use crate::text::{
    chars_of, has_prefix, has_suffix, is_space, join2, join3, lower_char, push_decimal, same_text,
    to_ascii_lower, to_decimal, trimmed, up_to_char, with_char_replaced, without_leading_char,
    without_leading_text, without_trailing_char,
};
use vstd::prelude::*;

verus! {

/// The time since a moment is the distance to it; nothing where the moment lies ahead.
pub proof fn time_since_is_a_distance(now: u128, moment: u128, nanos: u128)
    requires
        call_ensures(time_since, (now, moment), nanos),
    ensures
        moment <= now ==> moment + nanos == now,
        moment > now ==> nanos == 0,
{
}

/// The characters of a text are handed out one by one, in order.
pub proof fn characters_come_in_order(s: &str, chars: Vec<char>)
    requires
        call_ensures(chars_of, (s,), chars),
    ensures
        chars@.len() == s@.len(),
        forall|i: int| 0 <= i < s@.len() ==> #[trigger] chars@[i] == s@[i],
{
}

/// Two texts are the same where they have the same characters in the same order.
pub proof fn same_texts_have_the_same_characters(a: &str, b: &str, same: bool)
    requires
        call_ensures(same_text, (a, b), same),
    ensures
        same <==> a@.len() == b@.len() && forall|i: int|
            0 <= i < a@.len() ==> #[trigger] a@[i] == b@[i],
{
    if a@.len() == b@.len() && forall|i: int| 0 <= i < a@.len() ==> #[trigger] a@[i] == b@[i] {
        assert(a@ =~= b@);
    }
}

/// Texts that are joined stand one behind the other, unchanged.
pub proof fn joined_texts_stand_in_order(
    a: &str,
    b: &str,
    c: &str,
    two: String,
    three: String,
)
    requires
        call_ensures(join2, (a, b), two),
        call_ensures(join3, (a, b, c), three),
    ensures
        two@ == a@ + b@,
        three@ == two@ + c@,
{
}

/// Capitals become small letters; every other character stays as it is.
pub proof fn capitals_alone_are_lowered(c: char, lower: char)
    requires
        call_ensures(lower_char, (c,), lower),
    ensures
        'A' <= c <= 'Z' ==> lower as int == c as int + 32,
        !('A' <= c <= 'Z') ==> lower == c,
{
}

/// A text is lowered character by character.
pub proof fn text_is_lowered_by_character(s: &str, lower: String)
    requires
        call_ensures(to_ascii_lower, (s,), lower),
    ensures
        lower@.len() == s@.len(),
        forall|i: int|
            0 <= i < s@.len() ==> {
                &&& 'A' <= s@[i] <= 'Z' ==> (#[trigger] lower@[i]) as int == s@[i] as int + 32
                &&& !('A' <= s@[i] <= 'Z') ==> lower@[i] == s@[i]
            },
{
}

/// One character is replaced wherever it stands; every other stays as it is.
pub proof fn one_character_is_replaced(s: &str, from: char, to: char, replaced: String)
    requires
        call_ensures(with_char_replaced, (s, from, to), replaced),
    ensures
        replaced@.len() == s@.len(),
        forall|i: int|
            0 <= i < s@.len() ==> {
                &&& s@[i] == from ==> #[trigger] replaced@[i] == to
                &&& s@[i] != from ==> replaced@[i] == s@[i]
            },
{
}

/// White space is what has the Unicode property of that name: the tab, the line ends, the space,
/// and the spaces beyond ASCII.
pub proof fn white_space_is_no_sign(c: char, space: bool)
    requires
        call_ensures(is_space, (c,), space),
    ensures
        space <==> {
            let n = c as int;
            ||| 9 <= n <= 13
            ||| n == 32
            ||| n == 0x85
            ||| n == 0xa0
            ||| n == 0x1680
            ||| 0x2000 <= n <= 0x200a
            ||| n == 0x2028
            ||| n == 0x2029
            ||| n == 0x202f
            ||| n == 0x205f
            ||| n == 0x3000
        },
        space == text::is_white_space(c),
{
}

proof fn lemma_trim_start(s: Seq<char>) -> (n: int)
    ensures
        0 <= n <= s.len(),
        text::trim_start(s) == s.skip(n),
        forall|i: int| 0 <= i < n ==> text::is_white_space(#[trigger] s[i]),
        n < s.len() ==> !text::is_white_space(s[n]),
    decreases s.len(),
{
    if s.len() > 0 && text::is_white_space(s[0]) {
        let rest = s.skip(1);
        let n = lemma_trim_start(rest);
        assert(rest.skip(n) =~= s.skip(n + 1));
        assert forall|i: int| 0 <= i < n + 1 implies text::is_white_space(#[trigger] s[i]) by {
            if i > 0 {
                assert(rest[i - 1] == s[i]);
            }
        }
        n + 1
    } else {
        assert(s.skip(0) =~= s);
        0
    }
}

proof fn lemma_trim_end(s: Seq<char>) -> (n: int)
    ensures
        0 <= n <= s.len(),
        text::trim_end(s) == s.take(n),
        forall|i: int| n <= i < s.len() ==> text::is_white_space(#[trigger] s[i]),
        n > 0 ==> !text::is_white_space(s[n - 1]),
    decreases s.len(),
{
    if s.len() > 0 && text::is_white_space(s.last()) {
        let init = s.drop_last();
        let n = lemma_trim_end(init);
        assert(init.take(n) =~= s.take(n));
        assert forall|i: int| n <= i < s.len() implies text::is_white_space(#[trigger] s[i]) by {
            if i < init.len() {
                assert(init[i] == s[i]);
            }
        }
        n
    } else {
        assert(s.take(s.len() as int) =~= s);
        s.len() as int
    }
}

/// Trimming a text takes white space off its ends, all of it and nothing else. `start` is where
/// what stays begins.
pub proof fn white_space_is_cut_off_the_ends(s: &str, inner: &str) -> (start: int)
    requires
        call_ensures(trimmed, (s,), inner),
    ensures
        0 <= start <= start + inner@.len() <= s@.len(),
        inner@ == s@.subrange(start, start + inner@.len()),
        forall|i: int| 0 <= i < start ==> text::is_white_space(#[trigger] s@[i]),
        forall|i: int|
            start + inner@.len() <= i < s@.len() ==> text::is_white_space(#[trigger] s@[i]),
        inner@.len() > 0 ==> {
            &&& !text::is_white_space(inner@[0])
            &&& !text::is_white_space(inner@[inner@.len() - 1])
        },
{
    let start = lemma_trim_start(s@);
    let rest = s@.skip(start);
    let n = lemma_trim_end(rest);
    assert(inner@ =~= s@.subrange(start, start + n));
    assert forall|i: int| start + n <= i < s@.len() implies text::is_white_space(
        #[trigger] s@[i],
    ) by {
        assert(rest[i - start] == s@[i]);
    }
    start
}

proof fn lemma_trim_start_char(s: Seq<char>, c: char) -> (n: int)
    ensures
        0 <= n <= s.len(),
        text::trim_start_char(s, c) == s.skip(n),
        forall|i: int| 0 <= i < n ==> #[trigger] s[i] == c,
        n < s.len() ==> s[n] != c,
    decreases s.len(),
{
    if s.len() > 0 && s[0] == c {
        let rest = s.skip(1);
        let n = lemma_trim_start_char(rest, c);
        assert(rest.skip(n) =~= s.skip(n + 1));
        assert forall|i: int| 0 <= i < n + 1 implies #[trigger] s[i] == c by {
            if i > 0 {
                assert(rest[i - 1] == s[i]);
            }
        }
        n + 1
    } else {
        assert(s.skip(0) =~= s);
        0
    }
}

/// A leading run of a character is cut off, all of it and nothing else.
pub proof fn leading_run_is_cut_off(s: &str, c: char, rest: &str)
    requires
        call_ensures(without_leading_char, (s, c), rest),
    ensures
        rest@.len() <= s@.len(),
        rest@ == s@.skip(s@.len() - rest@.len()),
        forall|i: int| 0 <= i < s@.len() - rest@.len() ==> #[trigger] s@[i] == c,
        rest@.len() > 0 ==> rest@[0] != c,
{
    let n = lemma_trim_start_char(s@, c);
    assert(n == s@.len() - rest@.len());
}

proof fn lemma_trim_end_char(s: Seq<char>, c: char) -> (n: int)
    ensures
        0 <= n <= s.len(),
        text::trim_end_char(s, c) == s.take(n),
        forall|i: int| n <= i < s.len() ==> #[trigger] s[i] == c,
        n > 0 ==> s[n - 1] != c,
    decreases s.len(),
{
    if s.len() > 0 && s.last() == c {
        let init = s.drop_last();
        let n = lemma_trim_end_char(init, c);
        assert(init.take(n) =~= s.take(n));
        assert forall|i: int| n <= i < s.len() implies #[trigger] s[i] == c by {
            if i < init.len() {
                assert(init[i] == s[i]);
            }
        }
        n
    } else {
        assert(s.take(s.len() as int) =~= s);
        s.len() as int
    }
}

/// A trailing run of a character is cut off, all of it and nothing else.
pub proof fn trailing_run_is_cut_off(s: &str, c: char, rest: &str)
    requires
        call_ensures(without_trailing_char, (s, c), rest),
    ensures
        rest@.len() <= s@.len(),
        rest@ == s@.take(rest@.len() as int),
        forall|i: int| rest@.len() <= i < s@.len() ==> #[trigger] s@[i] == c,
        rest@.len() > 0 ==> rest@[rest@.len() - 1] != c,
{
    let n = lemma_trim_end_char(s@, c);
    assert(n == rest@.len());
}

/// A text begins with a prefix where the characters of the prefix are its first.
pub proof fn prefix_stands_at_the_start(s: &str, prefix: &str, has: bool)
    requires
        call_ensures(has_prefix, (s, prefix), has),
    ensures
        has <==> prefix@.len() <= s@.len() && forall|i: int|
            0 <= i < prefix@.len() ==> #[trigger] s@[i] == prefix@[i],
{
    if prefix@.len() <= s@.len() && forall|i: int|
        0 <= i < prefix@.len() ==> #[trigger] s@[i] == prefix@[i] {
        assert(s@.subrange(0, prefix@.len() as int) =~= prefix@);
    }
    if has {
        assert forall|i: int| 0 <= i < prefix@.len() implies #[trigger] s@[i] == prefix@[i] by {
            assert(s@.subrange(0, prefix@.len() as int)[i] == s@[i]);
        }
    }
}

/// A text ends with a suffix where the characters of the suffix are its last.
pub proof fn suffix_stands_at_the_end(s: &str, suffix: &str, has: bool)
    requires
        call_ensures(has_suffix, (s, suffix), has),
    ensures
        has <==> suffix@.len() <= s@.len() && s@.skip(s@.len() - suffix@.len()) == suffix@,
{
    if suffix@.len() <= s@.len() {
        assert(s@.skip(s@.len() - suffix@.len()) =~= s@.subrange(
            s@.len() - suffix@.len(),
            s@.len() as int,
        ));
    }
}

/// A text that does not begin with the prefix stays as it is.
pub proof fn text_without_the_prefix_stays(s: &str, prefix: &str, rest: &str)
    requires
        call_ensures(without_leading_text, (s, prefix), rest),
        !prefix@.is_prefix_of(s@) || prefix@.len() == 0,
    ensures
        rest@ == s@,
{
}

/// A prefix before a text makes no difference to what is left when leading copies of the prefix
/// are cut off.
pub proof fn leading_copies_are_cut_off(
    s: &str,
    prefixed: &str,
    prefix: &str,
    rest: &str,
    same_rest: &str,
)
    requires
        prefix@.len() > 0,
        prefixed@ == prefix@ + s@,
        call_ensures(without_leading_text, (s, prefix), rest),
        call_ensures(without_leading_text, (prefixed, prefix), same_rest),
    ensures
        same_rest@ == rest@,
        !prefix@.is_prefix_of(rest@),
{
    assert(prefixed@.subrange(0, prefix@.len() as int) =~= prefix@);
    assert(prefixed@.skip(prefix@.len() as int) =~= s@);
    lemma_no_prefix_left(s@, prefix@);
}

proof fn lemma_no_prefix_left(s: Seq<char>, prefix: Seq<char>)
    requires
        prefix.len() > 0,
    ensures
        !prefix.is_prefix_of(text::trim_start_text(s, prefix)),
    decreases s.len(),
{
    if prefix.is_prefix_of(s) {
        lemma_no_prefix_left(s.skip(prefix.len() as int), prefix);
    }
}

proof fn lemma_before_char(s: Seq<char>, c: char) -> (n: int)
    ensures
        0 <= n <= s.len(),
        text::before_char(s, c) == s.take(n),
        forall|i: int| 0 <= i < n ==> #[trigger] s[i] != c,
        n < s.len() ==> s[n] == c,
    decreases s.len(),
{
    if s.len() == 0 || s[0] == c {
        assert(s.take(0) =~= Seq::empty());
        0
    } else {
        let rest = s.skip(1);
        let n = lemma_before_char(rest, c);
        assert(seq![s[0]] + rest.take(n) =~= s.take(n + 1));
        assert forall|i: int| 0 <= i < n + 1 implies #[trigger] s[i] != c by {
            if i > 0 {
                assert(rest[i - 1] == s[i]);
            }
        }
        n + 1
    }
}

/// A text is cut at the first place where a character stands; without that character it is not cut.
pub proof fn text_is_cut_at_the_first(s: &str, c: char, head: &str)
    requires
        call_ensures(up_to_char, (s, c), head),
    ensures
        head@.len() <= s@.len(),
        head@ == s@.take(head@.len() as int),
        forall|i: int| 0 <= i < head@.len() ==> #[trigger] head@[i] != c,
        head@.len() < s@.len() ==> s@[head@.len() as int] == c,
{
    let n = lemma_before_char(s@, c);
    assert(head@.len() == n);
    assert forall|i: int| 0 <= i < head@.len() implies #[trigger] head@[i] != c by {
        assert(s@[i] != c);
    }
}

/// A number below ten is one digit; the last digit of a number is what is left over after tens, and
/// the digits before it are those of the tens.
pub proof fn decimals_are_read_in_tens(n: u64, digits: String, tens: String)
    requires
        call_ensures(to_decimal, (n,), digits),
        call_ensures(to_decimal, (n / 10,), tens),
    ensures
        digits@.len() > 0,
        digits@.last() as int == '0' as int + n % 10,
        n < 10 ==> digits@.len() == 1,
        n >= 10 ==> digits@.drop_last() == tens@,
{
    if n >= 10 {
        assert(text::decimal((n / 10) as nat).push(text::digit_char((n % 10) as nat)).drop_last()
            =~= text::decimal((n / 10) as nat));
    }
}

/// A number is put behind what stands there, as its decimals.
pub proof fn decimals_are_put_behind(out: &mut String, n: u64, digits: String)
    requires
        call_ensures(push_decimal, (out, n), ()),
        call_ensures(to_decimal, (n,), digits),
    ensures
        final(out)@ == old(out)@ + digits@,
{
}

} // verus!
