//! Paths and URLs.
use crate::text;
use crate::text::{
    has_prefix, join2, join3, to_decimal, without_leading_char, without_leading_text,
    without_trailing_char,
};
use vstd::prelude::*;

verus! {

/// The number of the first request in a process.
pub const FIRST_REQUEST: u64 = 1;

/// A path that begins with a slash, where need be with one put before it.
pub open spec fn rooted(path: Seq<char>) -> Seq<char> {
    if path.len() > 0 && path[0] == '/' {
        path
    } else {
        "/"@ + path
    }
}

/// A path that begins with exactly one slash.
pub open spec fn singly_rooted(path: Seq<char>) -> Seq<char> {
    "/"@ + text::trim_start_char(path, '/')
}

/// A base URL without its trailing slashes.
pub open spec fn base_url(url: Seq<char>) -> Seq<char> {
    text::trim_end_char(url, '/')
}

/// The URL of the control channel of the relay at `server`: `wss` where that is `https`, and
/// plain `ws` otherwise.
pub open spec fn websocket_url(server: Seq<char>) -> Seq<char> {
    if "https://"@.is_prefix_of(server) {
        "wss://"@ + base_url(server.skip("https://"@.len() as int)) + "/ws"@
    } else {
        "ws://"@ + base_url(text::trim_start_text(server, "http://"@)) + "/ws"@
    }
}

/// The host in a public URL.
pub open spec fn host_in(url: Seq<char>) -> Seq<char> {
    base_url(text::trim_start_text(text::trim_start_text(url, "https://"@), "http://"@))
}

/// The URL under which the relay at `server` shows a tunnel without a name in the DNS.
pub open spec fn preview_url(server: Seq<char>, public_url: Seq<char>) -> Seq<char> {
    base_url(server) + "/_openrok/"@ + host_in(public_url) + "/"@
}

/// The URL at which the relay at `server` takes requests for tunnels.
pub open spec fn create_url(server: Seq<char>) -> Seq<char> {
    base_url(server) + "/tunnels"@
}

/// The URL of a forwarded request at the local service. An empty query counts as none.
pub open spec fn local_url(
    local_addr: Seq<char>,
    path: Seq<char>,
    query: Option<Seq<char>>,
) -> Seq<char> {
    let plain = base_url(local_addr) + rooted(path);
    match query {
        Some(query) if query.len() > 0 => plain + "?"@ + query,
        _ => plain,
    }
}

/// The id of the request with the number `n`.
pub open spec fn request_id_of(n: u64) -> Seq<char> {
    "req_"@ + text::decimal(n as nat)
}

/// The number of the request after the one with the number `n`.
pub open spec fn next_number(n: u64) -> u64 {
    if n == u64::MAX {
        0
    } else {
        (n + 1) as u64
    }
}

/// Computes [`rooted`].
pub fn normalize_path(path: &str) -> (normal: String)
    ensures
        normal@ == rooted(path@),
{
    proof {
        reveal_strlit("/");
    }
    assert("/"@.is_prefix_of(path@) == (path@.len() > 0 && path@[0] == '/')) by {
        if path@.len() > 0 {
            assert(path@.subrange(0, 1)[0] == path@[0]);
            assert(path@[0] == '/' ==> path@.subrange(0, 1) == "/"@);
        }
    }
    if has_prefix(path, "/") {
        path.to_owned()
    } else {
        join2("/", path)
    }
}

/// Computes [`singly_rooted`]: the path that a preview request asks for.
pub fn preview_path(path: &str) -> (normal: String)
    ensures
        normal@ == singly_rooted(path@),
{
    join2("/", without_leading_char(path, '/'))
}

/// Computes [`websocket_url`].
pub fn build_websocket_url(server: &str) -> (url: String)
    ensures
        url@ == websocket_url(server@),
{
    if has_prefix(server, "https://") {
        let len: usize = server.unicode_len();
        let scheme: usize = "https://".unicode_len();
        let rest = server.substring_char(scheme, len);
        assert(rest@ == server@.skip(scheme as int));
        return join3("wss://", without_trailing_char(rest, '/'), "/ws");
    }
    let rest = without_trailing_char(without_leading_text(server, "http://"), '/');
    join3("ws://", rest, "/ws")
}

/// Computes [`host_in`].
pub fn public_host(url: &str) -> (host: String)
    ensures
        host@ == host_in(url@),
{
    let rest = without_leading_text(without_leading_text(url, "https://"), "http://");
    without_trailing_char(rest, '/').to_owned()
}

/// Computes [`preview_url`].
pub fn local_browser_url(server: &str, public_url: &str) -> (url: String)
    ensures
        url@ == preview_url(server@, public_url@),
{
    let mut url = join3(
        without_trailing_char(server, '/'),
        "/_openrok/",
        public_host(public_url).as_str(),
    );
    url.append("/");
    url
}

/// Computes [`create_url`].
pub fn tunnels_endpoint(server: &str) -> (url: String)
    ensures
        url@ == create_url(server@),
{
    join2(without_trailing_char(server, '/'), "/tunnels")
}

/// Computes [`local_url`].
pub fn local_request_url(local_addr: &str, path: &str, query: Option<&str>) -> (url: String)
    ensures
        url@ == local_url(
            local_addr@,
            path@,
            match query {
                Some(query) => Some(query@),
                None => None,
            },
        ),
{
    let mut url = join2(without_trailing_char(local_addr, '/'), normalize_path(path).as_str());
    if let Some(query) = query {
        if !query.is_empty() {
            url.append("?");
            url.append(query);
        }
    }
    url
}

/// Takes the next number for the id of a request. After the last number comes 0.
pub fn next_request_id(counter: &mut u64) -> (request_id: String)
    ensures
        request_id@ == request_id_of(*old(counter)),
        *final(counter) == next_number(*old(counter)),
{
    let n: u64 = *counter;
    *counter = n.wrapping_add(1);
    join2("req_", to_decimal(n).as_str())
}

/// A rooted path begins with a slash, and rooting it again leaves it alone.
pub proof fn rooting_is_idempotent(path: Seq<char>)
    ensures
        rooted(path).len() > 0,
        rooted(path)[0] == '/',
        rooted(rooted(path)) == rooted(path),
{
    reveal_strlit("/");
}

proof fn lemma_trim_start_char(s: Seq<char>, c: char)
    ensures
        text::trim_start_char(s, c).len() == 0 || text::trim_start_char(s, c)[0] != c,
        text::trim_start_char(text::trim_start_char(s, c), c) == text::trim_start_char(s, c),
    decreases s.len(),
{
    if s.len() > 0 && s[0] == c {
        lemma_trim_start_char(s.skip(1), c);
    }
}

/// The path of a preview request begins with one slash and no second, and rooting it again leaves
/// it alone.
pub proof fn preview_path_has_one_leading_slash(path: Seq<char>)
    ensures
        singly_rooted(path)[0] == '/',
        singly_rooted(path).len() == 1 || singly_rooted(path)[1] != '/',
        singly_rooted(singly_rooted(path)) == singly_rooted(path),
        rooted(singly_rooted(path)) == singly_rooted(path),
{
    reveal_strlit("/");
    lemma_trim_start_char(path, '/');
    let rest = text::trim_start_char(path, '/');
    assert(singly_rooted(path).skip(1) == rest);
    assert(text::trim_start_char(singly_rooted(path), '/') == text::trim_start_char(rest, '/'));
}

/// A slash at the end of the relay's URL makes no difference.
pub proof fn trailing_slash_makes_no_difference(server: Seq<char>, public_url: Seq<char>)
    ensures
        base_url(server + "/"@) == base_url(server),
        create_url(server + "/"@) == create_url(server),
        preview_url(server + "/"@, public_url) == preview_url(server, public_url),
{
    reveal_strlit("/");
    let slashed = server + "/"@;
    assert(slashed.last() == '/');
    assert(slashed.drop_last() =~= server);
}

proof fn lemma_one_prefix(prefix: Seq<char>, s: Seq<char>)
    requires
        prefix.len() > 0,
        !prefix.is_prefix_of(s),
    ensures
        text::trim_start_text(prefix + s, prefix) == s,
{
    assert(prefix.is_prefix_of(prefix + s));
    assert((prefix + s).skip(prefix.len() as int) =~= s);
    assert(text::trim_start_text(s, prefix) == s);
}

proof fn lemma_prefix_of_slashed(prefix: Seq<char>, s: Seq<char>)
    requires
        prefix.len() > 0,
        s != prefix.drop_last(),
    ensures
        prefix.is_prefix_of(s + "/"@) == prefix.is_prefix_of(s),
{
    reveal_strlit("/");
    let slashed = s + "/"@;
    if prefix.len() <= s.len() {
        assert(slashed.subrange(0, prefix.len() as int) =~= s.subrange(0, prefix.len() as int));
    } else if prefix.is_prefix_of(slashed) {
        assert(slashed.subrange(0, prefix.len() as int) =~= slashed);
        assert(prefix.drop_last() =~= s);
    }
}

proof fn lemma_trim_slashed(prefix: Seq<char>, s: Seq<char>)
    requires
        prefix.len() > 0,
        text::trim_start_text(s, prefix) != prefix.drop_last(),
    ensures
        text::trim_start_text(s + "/"@, prefix) == text::trim_start_text(s, prefix) + "/"@,
    decreases s.len(),
{
    if prefix.is_prefix_of(s) {
        let n = prefix.len() as int;
        assert((s + "/"@).subrange(0, n) =~= s.subrange(0, n));
        assert((s + "/"@).skip(n) =~= s.skip(n) + "/"@);
        lemma_trim_slashed(prefix, s.skip(n));
    } else {
        lemma_prefix_of_slashed(prefix, s);
    }
}

/// A slash at the end of the relay's URL makes no difference to the control channel either,
/// unless it is the slash that makes a scheme out of what stood there.
pub proof fn trailing_slash_makes_no_difference_to_the_channel(server: Seq<char>)
    requires
        server != "https:/"@,
        text::trim_start_text(server, "http://"@) != "http:/"@,
    ensures
        websocket_url(server + "/"@) == websocket_url(server),
{
    reveal_strlit("/");
    reveal_strlit("https:/");
    reveal_strlit("https://");
    reveal_strlit("http:/");
    reveal_strlit("http://");
    assert("https://"@.drop_last() =~= "https:/"@);
    assert("http://"@.drop_last() =~= "http:/"@);
    lemma_prefix_of_slashed("https://"@, server);
    if "https://"@.is_prefix_of(server) {
        assert((server + "/"@).skip(8) =~= server.skip(8) + "/"@);
        trailing_slash_makes_no_difference(server.skip(8), Seq::empty());
    } else {
        lemma_trim_slashed("http://"@, server);
        trailing_slash_makes_no_difference(
            text::trim_start_text(server, "http://"@),
            Seq::empty(),
        );
    }
}

/// The control channel is as secure as the relay's URL: `wss` for `https`, `ws` for `http`.
pub proof fn control_channel_follows_the_scheme(host: Seq<char>)
    ensures
        websocket_url("https://"@ + host) == "wss://"@ + base_url(host) + "/ws"@,
        !"http://"@.is_prefix_of(host) ==> websocket_url("http://"@ + host) == "ws://"@ + base_url(
            host,
        ) + "/ws"@,
{
    reveal_strlit("https://");
    reveal_strlit("http://");
    let secure = "https://"@ + host;
    assert("https://"@.is_prefix_of(secure));
    assert(secure.skip(8) =~= host);
    let plain = "http://"@ + host;
    assert(plain[4] == ':');
    assert(!"https://"@.is_prefix_of(plain)) by {
        if "https://"@.is_prefix_of(plain) {
            assert("https://"@[4] == plain.subrange(0, 8)[4]);
        }
    }
    if !"http://"@.is_prefix_of(host) {
        lemma_one_prefix("http://"@, host);
    }
}

/// The host in the public URL of a tunnel is the host that the URL was made of.
pub proof fn public_url_names_its_host(host: Seq<char>)
    requires
        !"https://"@.is_prefix_of(host),
        !"http://"@.is_prefix_of(host),
        host.len() == 0 || host.last() != '/',
    ensures
        host_in("https://"@ + host) == host,
{
    reveal_strlit("https://");
    lemma_one_prefix("https://"@, host);
    assert(text::trim_start_text(host, "http://"@) == host);
}

pub(crate) proof fn lemma_no_colon_no_scheme(host: Seq<char>)
    requires
        !host.contains(':'),
    ensures
        !"https://"@.is_prefix_of(host),
        !"http://"@.is_prefix_of(host),
{
    reveal_strlit("https://");
    reveal_strlit("http://");
    if "https://"@.is_prefix_of(host) {
        assert("https://"@[5] == host.subrange(0, 8)[5]);
        assert(host[5] == ':');
    }
    if "http://"@.is_prefix_of(host) {
        assert("http://"@[4] == host.subrange(0, 7)[4]);
        assert(host[4] == ':');
    }
}

/// Two numbers never give the same request id.
pub proof fn request_ids_are_distinct(a: u64, b: u64)
    requires
        request_id_of(a) == request_id_of(b),
    ensures
        a == b,
{
    reveal_strlit("req_");
    assert(request_id_of(a).skip(4) =~= text::decimal(a as nat));
    assert(request_id_of(b).skip(4) =~= text::decimal(b as nat));
    text::decimals_are_distinct(a as nat, b as nat);
}

} // verus!
