//! Laws on paths and URLs.
use crate::text::{to_decimal, without_leading_char, without_leading_text, without_trailing_char};
use crate::urls::{
    build_websocket_url, local_browser_url, local_request_url, next_request_id, normalize_path,
    preview_path, public_host, tunnels_endpoint,
};
use vstd::prelude::*;

verus! {

/// A path that begins with a slash stays as it is, and any other gets one before it.
pub proof fn path_begins_with_a_slash(path: &str, normal: String)
    requires
        call_ensures(normalize_path, (path,), normal),
    ensures
        path@.len() > 0 && path@[0] == '/' ==> normal@ == path@,
        path@.len() == 0 || path@[0] != '/' ==> normal@ == seq!['/'] + path@,
{
    reveal_strlit("/");
    assert("/"@ =~= seq!['/']);
}

/// The path of a preview request begins with one slash, in place of all that it began with.
pub proof fn preview_path_begins_with_one_slash(path: &str, rest: &str, normal: String)
    requires
        call_ensures(without_leading_char, (path, '/'), rest),
        call_ensures(preview_path, (path,), normal),
    ensures
        normal@ == seq!['/'] + rest@,
{
    reveal_strlit("/");
    assert("/"@ =~= seq!['/']);
}

/// The control channel of a relay at an `https` URL is a `wss` URL; that of any other is a `ws`
/// URL, without the `http` scheme. The path of the channel replaces the slashes at the end.
pub proof fn channel_url_follows_the_server(
    server: &str,
    secure: &str,
    secure_base: &str,
    plain: &str,
    plain_base: &str,
    scheme: &str,
    url: String,
)
    requires
        call_ensures(build_websocket_url, (server,), url),
        call_ensures(without_trailing_char, (secure, '/'), secure_base),
        scheme@ == "http://"@,
        call_ensures(without_leading_text, (server, scheme), plain),
        call_ensures(without_trailing_char, (plain, '/'), plain_base),
    ensures
        server@ == "https://"@ + secure@ ==> url@ == "wss://"@ + secure_base@ + "/ws"@,
        !"https://"@.is_prefix_of(server@) ==> url@ == "ws://"@ + plain_base@ + "/ws"@,
{
    let prefix = "https://"@;
    if server@ == prefix + secure@ {
        assert(server@.subrange(0, prefix.len() as int) =~= prefix);
        assert(server@.skip(prefix.len() as int) =~= secure@);
    }
}

/// The host in a URL is what is left when the schemes before it and the slashes behind it are cut
/// off.
pub proof fn host_stands_between_scheme_and_slashes(
    url: &str,
    secure_scheme: &str,
    scheme: &str,
    insecure: &str,
    bare: &str,
    base: &str,
    host: String,
)
    requires
        secure_scheme@ == "https://"@,
        scheme@ == "http://"@,
        call_ensures(without_leading_text, (url, secure_scheme), insecure),
        call_ensures(without_leading_text, (insecure, scheme), bare),
        call_ensures(without_trailing_char, (bare, '/'), base),
        call_ensures(public_host, (url,), host),
    ensures
        host@ == base@,
{
}

/// The preview URL of a tunnel is the URL of the relay, the preview path and the tunnel's host.
pub proof fn preview_url_names_the_host(
    server: &str,
    base: &str,
    public_url: &str,
    host: String,
    url: String,
)
    requires
        call_ensures(without_trailing_char, (server, '/'), base),
        call_ensures(public_host, (public_url,), host),
        call_ensures(local_browser_url, (server, public_url), url),
    ensures
        url@ == base@ + "/_openrok/"@ + host@ + "/"@,
{
}

/// Tunnels are asked for under the URL of the relay, whatever slashes it ends in.
pub proof fn tunnels_are_asked_for_at_the_server(server: &str, base: &str, url: String)
    requires
        call_ensures(without_trailing_char, (server, '/'), base),
        call_ensures(tunnels_endpoint, (server,), url),
    ensures
        url@ == base@ + "/tunnels"@,
{
}

/// The local URL of a request is the local address, the path and the query; a query that is empty
/// counts as none.
pub proof fn local_url_keeps_path_and_query(
    local_addr: &str,
    base: &str,
    path: &str,
    normal: String,
    query: Option<&str>,
    url: String,
)
    requires
        call_ensures(without_trailing_char, (local_addr, '/'), base),
        call_ensures(normalize_path, (path,), normal),
        call_ensures(local_request_url, (local_addr, path, query), url),
    ensures
        match query {
            Some(query) => if query@.len() > 0 {
                url@ == base@ + normal@ + "?"@ + query@
            } else {
                url@ == base@ + normal@
            },
            None => url@ == base@ + normal@,
        },
{
}

/// Each request gets its number as its id, and the next request the next number; after the last
/// number comes 0.
pub proof fn requests_are_numbered(counter: &mut u64, digits: String, request_id: String)
    requires
        call_ensures(to_decimal, (*old(counter),), digits),
        call_ensures(next_request_id, (counter,), request_id),
    ensures
        request_id@ == "req_"@ + digits@,
        *old(counter) < u64::MAX ==> *final(counter) == *old(counter) + 1,
        *old(counter) == u64::MAX ==> *final(counter) == 0,
{
}

} // verus!
