//! Public names: which subdomains there are, and how a host leads to a tunnel.
use crate::text;
use crate::text::{
    chars_of, has_suffix, join2, join3, to_ascii_lower, trimmed, up_to_char, with_char_replaced,
};
use crate::token;
use crate::token::random_token;
use vstd::prelude::*;

verus! {

/// The number of random characters in a name that the relay makes up.
pub const GENERATED_LENGTH: usize = 8;

/// How many names there are that the relay can make up: 36 to the eighth power.
pub const GENERATED_NAMES: u64 = 2_821_109_907_456;

/// Small ASCII letters, digits and the hyphen.
pub open spec fn is_label_char(c: char) -> bool {
    ||| 'a' <= c && c <= 'z'
    ||| '0' <= c && c <= '9'
    ||| c == '-'
}

/// A name that can stand before the relay's domain: 3 to 63 label characters, with a hyphen at
/// neither end.
pub open spec fn valid_subdomain(s: Seq<char>) -> bool {
    &&& 3 <= s.len() <= 63
    &&& s[0] != '-'
    &&& s.last() != '-'
    &&& forall|i: int| 0 <= i < s.len() ==> is_label_char(#[trigger] s[i])
}

/// The name that a client means: without white space around it, in lower case.
pub open spec fn normalized(s: Seq<char>) -> Seq<char> {
    text::ascii_lower(text::trim(s))
}

/// A name that the relay can make up out of a token.
pub open spec fn is_generated(s: Seq<char>) -> bool {
    exists|token: Seq<char>|
        token::is_token(token, GENERATED_LENGTH as nat) && s == "rok-"@
            + #[trigger] text::ascii_lower(token)
}

/// A name that the relay may make up out of one draw.
pub open spec fn is_drawn(s: Seq<char>) -> bool {
    exists|token: Seq<char>|
        {
            &&& token::is_token(token, GENERATED_LENGTH as nat)
            &&& token::drawn(token)
            &&& s == "rok-"@ + #[trigger] text::ascii_lower(token)
        }
}

/// The small letter or digit that stands for a number below 36.
pub open spec fn label_digit(d: nat) -> char {
    if d < 26 {
        (97 + d) as char
    } else {
        (22 + d) as char
    }
}

/// A number in `length` letters and digits.
pub open spec fn numbered_label(n: nat, length: nat) -> Seq<char>
    decreases length,
{
    if length == 0 {
        Seq::empty()
    } else {
        numbered_label(n / 36, (length - 1) as nat).push(label_digit(n % 36))
    }
}

/// The name of the relay's making with a number.
pub open spec fn numbered_name(n: nat) -> Seq<char> {
    "rok-"@ + numbered_label(n, GENERATED_LENGTH as nat)
}

/// The public host of a subdomain.
pub open spec fn host_of(subdomain: Seq<char>, domain: Seq<char>) -> Seq<char> {
    subdomain + "."@ + domain
}

/// The id of the tunnel behind a subdomain.
pub open spec fn tunnel_id_of(subdomain: Seq<char>) -> Seq<char> {
    "tnl_"@ + text::replace_char(subdomain, '-', '_')
}

/// The host name that a `Host` header means: without its port, without white space around it, in
/// lower case.
pub open spec fn bare_host(host: Seq<char>) -> Seq<char> {
    text::ascii_lower(text::trim(text::before_char(host, ':')))
}

/// The tunnel that a `Host` header leads to: the one of what stands before the relay's domain.
pub open spec fn route(domain: Seq<char>, host: Seq<char>) -> Option<Seq<char>> {
    let name = bare_host(host);
    let suffix = "."@ + text::ascii_lower(domain);
    if suffix.is_suffix_of(name) && suffix.len() < name.len() {
        Some(tunnel_id_of(name.take(name.len() - suffix.len())))
    } else {
        None
    }
}

/// The name that a client means, where it means one at all.
pub fn normalize_subdomain(subdomain: &str) -> (name: Option<String>)
    ensures
        match name {
            Some(name) => normalized(subdomain@).len() > 0 && name@ == normalized(subdomain@),
            None => normalized(subdomain@).len() == 0,
        },
{
    let name = to_ascii_lower(trimmed(subdomain));
    if name.as_str().is_empty() {
        return None;
    }
    Some(name)
}

/// Tells [`valid_subdomain`].
pub fn is_valid_subdomain(subdomain: &str) -> (valid: bool)
    ensures
        valid == valid_subdomain(subdomain@),
{
    let chars = chars_of(subdomain);
    if chars.len() < 3 || chars.len() > 63 {
        return false;
    }
    if chars[0] == '-' || chars[chars.len() - 1] == '-' {
        return false;
    }
    let mut i: usize = 0;
    while i < chars.len()
        invariant
            chars@ == subdomain@,
            i <= chars.len(),
            forall|j: int| 0 <= j < i ==> is_label_char(#[trigger] subdomain@[j]),
        decreases chars.len() - i,
    {
        let c: char = chars[i];
        if !(('a' <= c && c <= 'z') || ('0' <= c && c <= '9') || c == '-') {
            assert(!is_label_char(subdomain@[i as int]));
            return false;
        }
        i = i + 1;
    }
    true
}

/// Makes up a name.
pub fn generated_subdomain() -> (name: String)
    ensures
        is_generated(name@),
        is_drawn(name@),
{
    let token = random_token(GENERATED_LENGTH);
    let name = join2("rok-", to_ascii_lower(token.as_str()).as_str());
    assert(name@ == "rok-"@ + text::ascii_lower(token@));
    name
}

fn push_label(out: &mut String, n: u64, length: usize)
    ensures
        final(out)@ == old(out)@ + numbered_label(n as nat, length as nat),
    decreases length,
{
    if length > 0 {
        push_label(out, n / 36, length - 1);
        let digit: u8 = (n % 36) as u8;
        if digit < 26 {
            out.push((97 + digit) as char);
        } else {
            out.push((22 + digit) as char);
        }
    }
    assert(out@ == old(out)@ + numbered_label(n as nat, length as nat));
}

/// Computes [`numbered_name`].
pub fn numbered_subdomain(n: u64) -> (name: String)
    ensures
        name@ == numbered_name(n as nat),
{
    let mut name: String = "rok-".to_owned();
    push_label(&mut name, n, GENERATED_LENGTH);
    name
}

/// Computes [`host_of`].
pub fn host_for(subdomain: &str, domain: &str) -> (host: String)
    ensures
        host@ == host_of(subdomain@, domain@),
{
    join3(subdomain, ".", domain)
}

/// Computes [`tunnel_id_of`].
pub fn tunnel_id_for(subdomain: &str) -> (tunnel_id: String)
    ensures
        tunnel_id@ == tunnel_id_of(subdomain@),
{
    join2("tnl_", with_char_replaced(subdomain, '-', '_').as_str())
}

/// Computes [`route`].
pub fn tunnel_for_host(domain: &str, host: &str) -> (tunnel_id: Option<String>)
    ensures
        match tunnel_id {
            Some(tunnel_id) => route(domain@, host@) == Some(tunnel_id@),
            None => route(domain@, host@) is None,
        },
{
    let name = to_ascii_lower(trimmed(up_to_char(host, ':')));
    let suffix = join2(".", to_ascii_lower(domain).as_str());
    if !has_suffix(name.as_str(), suffix.as_str()) {
        return None;
    }
    let rest: usize = name.as_str().unicode_len() - suffix.as_str().unicode_len();
    if rest == 0 {
        return None;
    }
    let subdomain = name.as_str().substring_char(0, rest);
    assert(subdomain@ == name@.take(rest as int));
    Some(tunnel_id_for(subdomain))
}

proof fn lemma_before_char(head: Seq<char>, tail: Seq<char>, c: char)
    requires
        !head.contains(c),
        tail.len() == 0 || tail[0] == c,
    ensures
        text::before_char(head + tail, c) == head,
    decreases head.len(),
{
    if head.len() == 0 {
        assert(head + tail == tail);
        assert(text::before_char(tail, c) == head);
    } else {
        assert(head.contains(head[0]));
        assert((head + tail).skip(1) == head.skip(1) + tail);
        assert(!head.skip(1).contains(c)) by {
            if head.skip(1).contains(c) {
                let i = choose|i: int| 0 <= i < head.skip(1).len() && head.skip(1)[i] == c;
                assert(head[i + 1] == c);
            }
        }
        lemma_before_char(head.skip(1), tail, c);
        assert(seq![head[0]] + head.skip(1) == head);
    }
}

proof fn lemma_lower_concat(a: Seq<char>, b: Seq<char>)
    ensures
        text::ascii_lower(a + b) == text::ascii_lower(a) + text::ascii_lower(b),
{
    assert(text::ascii_lower(a + b) =~= text::ascii_lower(a) + text::ascii_lower(b));
}

/// A valid subdomain is in normal form already.
pub proof fn valid_subdomain_is_normal(subdomain: Seq<char>)
    requires
        valid_subdomain(subdomain),
    ensures
        normalized(subdomain) == subdomain,
{
    assert(is_label_char(subdomain[0]));
    assert(is_label_char(subdomain.last()));
    assert(text::ascii_lower(subdomain) =~= subdomain) by {
        assert forall|i: int| 0 <= i < subdomain.len() implies text::ascii_lower(subdomain)[i]
            == subdomain[i] by {
            assert(is_label_char(subdomain[i]));
        }
    }
}

/// Every name that the relay makes up is a valid subdomain.
pub proof fn generated_subdomain_is_valid(subdomain: Seq<char>)
    requires
        is_generated(subdomain),
    ensures
        valid_subdomain(subdomain),
{
    reveal_strlit("rok-");
    let token = choose|token: Seq<char>|
        token::is_token(token, GENERATED_LENGTH as nat) && subdomain == "rok-"@
            + #[trigger] text::ascii_lower(token);
    assert forall|i: int| 0 <= i < subdomain.len() implies is_label_char(
        #[trigger] subdomain[i],
    ) by {
        if i >= 4 {
            assert(token::is_alphanumeric(token[i - 4]));
            assert(subdomain[i] == text::ascii_lower_char(token[i - 4]));
        }
    }
    assert(token::is_alphanumeric(token[7]));
    assert(subdomain.last() == text::ascii_lower_char(token[7]));
}

/// A name that the relay made up shows in the tunnel id and in the public host.
pub proof fn generated_name_shows(subdomain: Seq<char>, domain: Seq<char>)
    requires
        is_generated(subdomain),
    ensures
        "tnl_rok_"@.is_prefix_of(tunnel_id_of(subdomain)),
        "rok-"@.is_prefix_of(host_of(subdomain, domain)),
{
    reveal_strlit("rok-");
    reveal_strlit("tnl_");
    reveal_strlit("tnl_rok_");
    let id = tunnel_id_of(subdomain);
    let host = host_of(subdomain, domain);
    assert(subdomain.take(4) =~= "rok-"@);
    assert forall|i: int| 0 <= i < 4 implies subdomain[i] == "rok-"@[i] by {
        assert(subdomain.take(4)[i] == subdomain[i]);
    }
    assert(id.subrange(0, 8) =~= "tnl_rok_"@);
    assert(host.subrange(0, 4) =~= "rok-"@);
}

spec fn label_count(length: nat) -> nat
    decreases length,
{
    if length == 0 {
        1
    } else {
        36 * label_count((length - 1) as nat)
    }
}

spec fn digit_number(c: char) -> nat {
    if 'a' <= c && c <= 'z' {
        (c as int - 97) as nat
    } else {
        (c as int - 22) as nat
    }
}

spec fn label_number(s: Seq<char>) -> nat
    decreases s.len(),
{
    if s.len() == 0 {
        0
    } else {
        36 * label_number(s.drop_last()) + digit_number(s.last())
    }
}

spec fn is_plain_label(s: Seq<char>) -> bool {
    forall|i: int|
        0 <= i < s.len() ==> ('a' <= #[trigger] s[i] && s[i] <= 'z') || ('0' <= s[i] && s[i]
            <= '9')
}

proof fn lemma_label_has_a_number(s: Seq<char>)
    requires
        is_plain_label(s),
    ensures
        label_number(s) < label_count(s.len()),
        numbered_label(label_number(s), s.len()) == s,
    decreases s.len(),
{
    if s.len() > 0 {
        let init = s.drop_last();
        assert(is_plain_label(init)) by {
            assert forall|i: int| 0 <= i < init.len() implies ('a' <= #[trigger] init[i] && init[i]
                <= 'z') || ('0' <= init[i] && init[i] <= '9') by {
                assert(s[i] == init[i]);
            }
        }
        lemma_label_has_a_number(init);
        let last = s[s.len() - 1];
        let n = label_number(s);
        assert(digit_number(last) < 36);
        assert(n / 36 == label_number(init));
        assert(n % 36 == digit_number(last));
        assert(label_digit(n % 36) == last);
        assert(init.push(last) =~= s);
    } else {
        assert(numbered_label(label_number(s), s.len()) =~= s);
    }
}

proof fn lemma_numbered_label_is_plain(n: nat, length: nat)
    ensures
        numbered_label(n, length).len() == length,
        is_plain_label(numbered_label(n, length)),
    decreases length,
{
    if length > 0 {
        lemma_numbered_label_is_plain(n / 36, (length - 1) as nat);
    }
}

proof fn lemma_plain_label_is_lower(s: Seq<char>)
    requires
        is_plain_label(s),
    ensures
        text::ascii_lower(s) == s,
{
    assert forall|i: int| 0 <= i < s.len() implies text::ascii_lower(s)[i] == s[i] by {
        assert(('a' <= s[i] && s[i] <= 'z') || ('0' <= s[i] && s[i] <= '9'));
    }
    assert(text::ascii_lower(s) =~= s);
}

proof fn lemma_number_of_label(n: nat, length: nat)
    requires
        n < label_count(length),
    ensures
        label_number(numbered_label(n, length)) == n,
    decreases length,
{
    if length > 0 {
        let shorter = (length - 1) as nat;
        let init = numbered_label(n / 36, shorter);
        lemma_number_of_label(n / 36, shorter);
        assert(numbered_label(n, length).drop_last() =~= init);
        assert(digit_number(label_digit(n % 36)) == n % 36);
    }
}

/// Two numbers below [`GENERATED_NAMES`] never give the same name.
pub proof fn numbered_names_are_distinct(a: nat, b: nat)
    requires
        a < GENERATED_NAMES,
        b < GENERATED_NAMES,
        numbered_name(a) == numbered_name(b),
    ensures
        a == b,
{
    reveal_strlit("rok-");
    assert(label_count(8) == GENERATED_NAMES) by {
        reveal_with_fuel(label_count, 9);
    }
    assert(numbered_name(a).skip(4) =~= numbered_label(a, 8));
    assert(numbered_name(b).skip(4) =~= numbered_label(b, 8));
    lemma_number_of_label(a, 8);
    lemma_number_of_label(b, 8);
}

/// Every number gives a name that the relay can make up.
pub proof fn numbered_name_is_generated(n: nat)
    ensures
        is_generated(numbered_name(n)),
{
    let label = numbered_label(n, GENERATED_LENGTH as nat);
    lemma_numbered_label_is_plain(n, GENERATED_LENGTH as nat);
    lemma_plain_label_is_lower(label);
    assert forall|i: int| 0 <= i < label.len() implies token::is_alphanumeric(
        #[trigger] label[i],
    ) by {
    }
    assert(token::is_token(label, GENERATED_LENGTH as nat));
    assert(numbered_name(n) == "rok-"@ + text::ascii_lower(label));
}

/// Every name that the relay can make up has a number below [`GENERATED_NAMES`].
pub proof fn generated_name_has_a_number(subdomain: Seq<char>)
    requires
        is_generated(subdomain),
    ensures
        exists|n: nat| n < GENERATED_NAMES && subdomain == #[trigger] numbered_name(n),
{
    let token = choose|token: Seq<char>|
        token::is_token(token, GENERATED_LENGTH as nat) && subdomain == "rok-"@
            + #[trigger] text::ascii_lower(token);
    let label = text::ascii_lower(token);
    assert(is_plain_label(label)) by {
        assert forall|i: int| 0 <= i < label.len() implies ('a' <= #[trigger] label[i] && label[i]
            <= 'z') || ('0' <= label[i] && label[i] <= '9') by {
            assert(token::is_alphanumeric(token[i]));
            assert(label[i] == text::ascii_lower_char(token[i]));
        }
    }
    lemma_label_has_a_number(label);
    assert(label_count(8) == GENERATED_NAMES) by {
        reveal_with_fuel(label_count, 9);
    }
    let n = label_number(label);
    assert(subdomain == numbered_name(n));
}

/// Two valid subdomains never share a tunnel id.
pub proof fn tunnel_ids_are_distinct(a: Seq<char>, b: Seq<char>)
    requires
        valid_subdomain(a),
        valid_subdomain(b),
        tunnel_id_of(a) == tunnel_id_of(b),
    ensures
        a == b,
{
    reveal_strlit("tnl_");
    let ra = text::replace_char(a, '-', '_');
    let rb = text::replace_char(b, '-', '_');
    assert(tunnel_id_of(a).skip(4) == ra);
    assert(tunnel_id_of(b).skip(4) == rb);
    assert(a.len() == ra.len() && b.len() == rb.len());
    assert forall|i: int| 0 <= i < a.len() implies a[i] == b[i] by {
        assert(ra[i] == rb[i]);
        assert(is_label_char(a[i]) && is_label_char(b[i]));
    }
    assert(a =~= b);
}

/// Two subdomains never share a public host.
pub proof fn hosts_are_distinct(a: Seq<char>, b: Seq<char>, domain: Seq<char>)
    requires
        host_of(a, domain) == host_of(b, domain),
    ensures
        a == b,
{
    reveal_strlit(".");
    let ha = host_of(a, domain);
    let hb = host_of(b, domain);
    assert(ha.take(ha.len() - 1 - domain.len()) == a);
    assert(hb.take(hb.len() - 1 - domain.len()) == b);
}

/// A domain whose hosts come through the reading of a `Host` header whole: it holds no colon and
/// does not end in white space.
pub open spec fn routable_domain(domain: Seq<char>) -> bool {
    &&& !domain.contains(':')
    &&& domain.len() == 0 || !text::is_white_space(domain.last())
}

pub(crate) proof fn lemma_host_parts(subdomain: Seq<char>, domain: Seq<char>)
    requires
        valid_subdomain(subdomain),
        routable_domain(domain),
    ensures
        !host_of(subdomain, domain).contains(':'),
        text::trim(host_of(subdomain, domain)) == host_of(subdomain, domain),
        text::ascii_lower(host_of(subdomain, domain)) == subdomain + ("."@ + text::ascii_lower(
            domain,
        )),
{
    reveal_strlit(".");
    let host = host_of(subdomain, domain);
    if host.contains(':') {
        let i = choose|i: int| 0 <= i < host.len() && host[i] == ':';
        if i < subdomain.len() {
            assert(is_label_char(subdomain[i]));
        } else if i > subdomain.len() {
            assert(domain[i - subdomain.len() - 1] == ':');
        }
        assert(false);
    }
    assert(is_label_char(subdomain[0]));
    assert(host[0] == subdomain[0]);
    assert(text::trim_start(host) == host);
    if domain.len() > 0 {
        assert(host.last() == domain.last());
    } else {
        assert(host.last() == '.');
    }
    assert(text::trim_end(host) == host);
    valid_subdomain_is_normal(subdomain);
    assert(is_label_char(subdomain.last()));
    assert(text::ascii_lower(subdomain) == subdomain);
    lemma_lower_concat(subdomain + "."@, domain);
    lemma_lower_concat(subdomain, "."@);
    assert(text::ascii_lower("."@) =~= "."@);
    assert(text::ascii_lower(host) =~= subdomain + ("."@ + text::ascii_lower(domain)));
}

/// The public host of a valid subdomain leads to that subdomain's tunnel, with or without a port
/// behind it.
pub proof fn public_host_leads_to_its_tunnel(
    subdomain: Seq<char>,
    domain: Seq<char>,
    suffix: Seq<char>,
)
    requires
        valid_subdomain(subdomain),
        routable_domain(domain),
        suffix.len() == 0 || suffix[0] == ':',
    ensures
        route(domain, host_of(subdomain, domain) + suffix) == Some(tunnel_id_of(subdomain)),
{
    let host = host_of(subdomain, domain);
    lemma_host_parts(subdomain, domain);
    lemma_before_char(host, suffix, ':');
    let name = bare_host(host + suffix);
    let tail = "."@ + text::ascii_lower(domain);
    assert(name == subdomain + tail);
    assert(tail.is_suffix_of(name));
    assert(name.take(name.len() - tail.len()) =~= subdomain);
}

proof fn lemma_lower_space(c: char)
    ensures
        text::is_white_space(text::ascii_lower_char(c)) == text::is_white_space(c),
        (text::ascii_lower_char(c) == ':') == (c == ':'),
{
}

proof fn lemma_lower_before_char(s: Seq<char>)
    ensures
        text::ascii_lower(text::before_char(s, ':')) == text::before_char(
            text::ascii_lower(s),
            ':',
        ),
    decreases s.len(),
{
    let low = text::ascii_lower(s);
    if s.len() > 0 {
        lemma_lower_space(s[0]);
        if s[0] != ':' {
            lemma_lower_before_char(s.skip(1));
            assert(text::ascii_lower(s.skip(1)) =~= low.skip(1));
            lemma_lower_concat(seq![s[0]], text::before_char(s.skip(1), ':'));
            assert(text::ascii_lower(seq![s[0]]) =~= seq![low[0]]);
        } else {
            assert(text::ascii_lower(text::before_char(s, ':')) =~= text::before_char(low, ':'));
        }
    } else {
        assert(text::ascii_lower(text::before_char(s, ':')) =~= text::before_char(low, ':'));
    }
}

proof fn lemma_lower_trim_start(s: Seq<char>)
    ensures
        text::ascii_lower(text::trim_start(s)) == text::trim_start(text::ascii_lower(s)),
    decreases s.len(),
{
    if s.len() > 0 {
        lemma_lower_space(s[0]);
        if text::is_white_space(s[0]) {
            lemma_lower_trim_start(s.skip(1));
            assert(text::ascii_lower(s.skip(1)) =~= text::ascii_lower(s).skip(1));
        }
    }
}

proof fn lemma_lower_trim_end(s: Seq<char>)
    ensures
        text::ascii_lower(text::trim_end(s)) == text::trim_end(text::ascii_lower(s)),
    decreases s.len(),
{
    if s.len() > 0 {
        lemma_lower_space(s.last());
        if text::is_white_space(s.last()) {
            lemma_lower_trim_end(s.drop_last());
            assert(text::ascii_lower(s.drop_last()) =~= text::ascii_lower(s).drop_last());
        }
    }
}

/// Hosts that differ in the case of their letters only lead to the same tunnel.
pub proof fn routing_ignores_case(domain: Seq<char>, a: Seq<char>, b: Seq<char>)
    requires
        text::ascii_lower(a) == text::ascii_lower(b),
    ensures
        route(domain, a) == route(domain, b),
{
    lemma_lower_before_char(a);
    lemma_lower_before_char(b);
    lemma_lower_trim_start(text::before_char(a, ':'));
    lemma_lower_trim_start(text::before_char(b, ':'));
    lemma_lower_trim_end(text::trim_start(text::before_char(a, ':')));
    lemma_lower_trim_end(text::trim_start(text::before_char(b, ':')));
}

} // verus!
