//! Random names and tokens.
use rand::distr::{Alphanumeric, SampleString};
use vstd::prelude::*;

verus! {

/// The number of characters in a registration token.
pub const TOKEN_LENGTH: usize = 24;

/// The ASCII letters and digits.
pub open spec fn is_alphanumeric(c: char) -> bool {
    ||| 'a' <= c && c <= 'z'
    ||| 'A' <= c && c <= 'Z'
    ||| '0' <= c && c <= '9'
}

/// A text of `length` ASCII letters and digits.
pub open spec fn is_token(s: Seq<char>, length: nat) -> bool {
    &&& s.len() == length
    &&& forall|i: int| 0 <= i < s.len() ==> is_alphanumeric(#[trigger] s[i])
}

/// Calls `SampleString::sample_string` of rand's `Alphanumeric` on the thread's generator, which
/// draws `length` letters and digits. Which ones they are rests on chance. It panics where a
/// string cannot be that long.
#[verifier::external_body]
fn draw_token(length: usize) -> (token: String)
    requires
        length <= isize::MAX,
    ensures
        is_token(token@, length as nat),
{
    Alphanumeric.sample_string(&mut rand::rng(), length)
}

/// One draw may give the text.
pub closed spec fn drawn(s: Seq<char>) -> bool {
    exists|length: usize, token: String| #[trigger]
        call_ensures(draw_token, (length,), token) && token@ == s
}

/// A text that a draw may give came out of a draw, as it is.
proof fn drawn_text_comes_from_a_draw(s: Seq<char>) -> (draw: (usize, String))
    requires
        drawn(s),
    ensures
        call_ensures(draw_token, (draw.0,), draw.1),
        draw.1@ == s,
{
    choose|length: usize, token: String| #[trigger]
        call_ensures(draw_token, (length,), token) && token@ == s
}

/// A random text of `length` letters and digits.
pub fn random_token(length: usize) -> (token: String)
    requires
        length <= isize::MAX,
    ensures
        is_token(token@, length as nat),
        drawn(token@),
{
    draw_token(length)
}

} // verus!
