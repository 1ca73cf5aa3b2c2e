//! Laws on public names: which names there are, and where a host leads.
use crate::laws;
use crate::relay::{AppState, Reply, Target};
use crate::headers;
use crate::subdomain;
use crate::subdomain::{
    generated_subdomain, host_for, is_valid_subdomain, normalize_subdomain, numbered_subdomain,
    tunnel_for_host, tunnel_id_for,
};
use crate::text;
use crate::text::{to_ascii_lower, trimmed, up_to_char};
use crate::token;
use crate::token::random_token;
use crate::tunnel_manager::TunnelManager;
use axum::http::{HeaderMap, HeaderValue};
use vstd::prelude::*;

verus! {

/// A client means the name that it gives, without white space around it and in lower case; it means
/// none where nothing is left.
pub proof fn name_is_trimmed_and_lowered(
    given: &str,
    inner: &str,
    lower: String,
    name: Option<String>,
)
    requires
        call_ensures(trimmed, (given,), inner),
        call_ensures(to_ascii_lower, (inner,), lower),
        call_ensures(normalize_subdomain, (given,), name),
    ensures
        match name {
            Some(name) => inner@.len() > 0 && name@ == lower@,
            None => inner@.len() == 0,
        },
{
}

/// A name is valid where it has 3 to 63 characters, all of them small letters, digits and hyphens,
/// and no hyphen at either end.
pub proof fn valid_names_are_labels(name: &str, valid: bool)
    requires
        call_ensures(is_valid_subdomain, (name,), valid),
    ensures
        valid <==> {
            &&& 3 <= name@.len() <= 63
            &&& name@[0] != '-'
            &&& name@[name@.len() - 1] != '-'
            &&& forall|i: int|
                0 <= i < name@.len() ==> 'a' <= #[trigger] name@[i] <= 'z' || '0' <= name@[i] <= '9'
                    || name@[i] == '-'
        },
{
    laws::tunnels::lemma_name(name@);
}

/// A token has as many characters as were asked for, all of them letters and digits.
pub proof fn token_is_alphanumeric(length: usize, token: String)
    requires
        call_ensures(random_token, (length,), token),
    ensures
        token@.len() == length,
        forall|i: int|
            0 <= i < length ==> 'a' <= #[trigger] token@[i] <= 'z' || 'A' <= token@[i] <= 'Z' || '0'
                <= token@[i] <= '9',
        token::drawn(token@),
{
    assert forall|i: int| 0 <= i < length implies 'a' <= #[trigger] token@[i] <= 'z' || 'A'
        <= token@[i] <= 'Z' || '0' <= token@[i] <= '9' by {
        assert(token::is_alphanumeric(token@[i]));
    }
}

/// A name of the relay's making is `rok-` and eight small letters and digits, made of one draw.
pub proof fn generated_names_are_made_up(name: String) -> (token: Seq<char>)
    requires
        call_ensures(generated_subdomain, (), name),
    ensures
        token::drawn(token),
        token.len() == 8,
        forall|i: int|
            0 <= i < 8 ==> 'a' <= #[trigger] token[i] <= 'z' || 'A' <= token[i] <= 'Z' || '0'
                <= token[i] <= '9',
        name@ == "rok-"@ + text::ascii_lower(token),
{
    let token = choose|token: Seq<char>|
        {
            &&& token::is_token(token, 8)
            &&& token::drawn(token)
            &&& name@ == "rok-"@ + #[trigger] text::ascii_lower(token)
        };
    assert forall|i: int| 0 <= i < 8 implies 'a' <= #[trigger] token[i] <= 'z' || 'A' <= token[i]
        <= 'Z' || '0' <= token[i] <= '9' by {
        assert(token::is_alphanumeric(token[i]));
    }
    token
}

/// Every number below 36 to the eighth power gives a name of the relay's making, and two numbers
/// give two names.
pub proof fn numbered_names_are_made_up(n: u64, name: String, other: u64, other_name: String)
    requires
        n < 2_821_109_907_456,
        other < 2_821_109_907_456,
        call_ensures(numbered_subdomain, (n,), name),
        call_ensures(numbered_subdomain, (other,), other_name),
    ensures
        name@.len() == 12,
        name@.take(4) == "rok-"@,
        forall|i: int|
            4 <= i < 12 ==> 'a' <= #[trigger] name@[i] <= 'z' || '0' <= name@[i] <= '9',
        name@ == other_name@ ==> n == other,
{
    subdomain::numbered_name_is_generated(n as nat);
    laws::tunnels::lemma_made_up(name@);
    assert(name@.take(4) =~= name@.subrange(0, 4));
    if name@ == other_name@ {
        subdomain::numbered_names_are_distinct(n as nat, other as nat);
    }
}

/// The public host of a name is the name, a dot and the domain.
pub proof fn host_is_name_and_domain(name: &str, domain: &str, host: String)
    requires
        call_ensures(host_for, (name, domain), host),
    ensures
        host@ == name@ + "."@ + domain@,
{
}

/// The id of a tunnel is `tnl_` and its name, with underscores for the hyphens.
pub proof fn id_is_made_of_the_name(name: &str, id: String)
    requires
        call_ensures(tunnel_id_for, (name,), id),
    ensures
        id@.len() == 4 + name@.len(),
        id@.take(4) == "tnl_"@,
        forall|i: int|
            0 <= i < name@.len() ==> {
                &&& name@[i] == '-' ==> #[trigger] id@[4 + i] == '_'
                &&& name@[i] != '-' ==> id@[4 + i] == name@[i]
            },
{
    laws::tunnels::lemma_id(name@);
    laws::tunnels::lemma_id_parts(name@);
}

/// How a host is read: cut at its port, trimmed and lowered. What stands before a dot and the
/// lowered domain names the tunnel.
pub proof fn host_is_read_step_by_step(
    domain: &str,
    lower_domain: String,
    host: &str,
    bare: &str,
    inner: &str,
    lower: String,
    name: &str,
    id: String,
    tunnel_id: Option<String>,
)
    requires
        call_ensures(to_ascii_lower, (domain,), lower_domain),
        call_ensures(up_to_char, (host, ':'), bare),
        call_ensures(trimmed, (bare,), inner),
        call_ensures(to_ascii_lower, (inner,), lower),
        call_ensures(tunnel_for_host, (domain, host), tunnel_id),
        call_ensures(tunnel_id_for, (name,), id),
    ensures
        name@.len() > 0 && lower@ == name@ + ("."@ + lower_domain@) ==> tunnel_id is Some
            && tunnel_id->Some_0@ == id@,
        !("."@ + lower_domain@).is_suffix_of(lower@) ==> tunnel_id is None,
        lower@ == "."@ + lower_domain@ ==> tunnel_id is None,
{
    let suffix = "."@ + lower_domain@;
    if name@.len() > 0 && lower@ == name@ + suffix {
        assert(lower@.subrange(lower@.len() - suffix.len(), lower@.len() as int) =~= suffix);
        assert(lower@.take(lower@.len() - suffix.len()) =~= name@);
    }
}

/// The relay leads a host as its own domain does.
pub proof fn relay_leads_a_host_by_its_domain(
    manager: &TunnelManager,
    domain: &str,
    host: &str,
    led: Option<String>,
    tunnel_id: Option<String>,
)
    requires
        domain@ == manager@.domain,
        call_ensures(tunnel_for_host, (domain, host), led),
        call_ensures(TunnelManager::tunnel_id_for_host, (manager, host), tunnel_id),
    ensures
        tunnel_id is Some == led is Some,
        tunnel_id is Some ==> tunnel_id->Some_0@ == led->Some_0@,
{
}

/// A public request goes to the tunnel that its host leads to. Its host is the one of its preview
/// path where there is one, and the one that its headers name where there is none. A request
/// without a host, or whose host leads nowhere, is refused.
pub proof fn public_request_goes_to_its_host(
    state: &AppState,
    host_override: Option<String>,
    given: &HeaderMap<HeaderValue>,
    named: Option<String>,
    domain: &str,
    host: &str,
    led: Option<String>,
    target: Result<Target, Reply>,
)
    requires
        call_ensures(AppState::resolve_target, (state, host_override, given), target),
        call_ensures(headers::host_from_headers, (given,), named),
        domain@ == state.tunnel_manager@.domain,
        host_override matches Some(meant) ==> host@ == meant@,
        host_override is None && named is Some ==> host@ == named->Some_0@,
        call_ensures(tunnel_for_host, (domain, host), led),
    ensures
        target is Ok <==> (host_override is Some || named is Some) && led is Some,
        target matches Ok(target) ==> target.host@ == host@ && target.tunnel_id@ == led->Some_0@,
        target matches Err(reply) ==> (reply matches Reply::Text { status, text } && status == 400
            && text@ == "missing or invalid host header"@),
{
}

} // verus!
