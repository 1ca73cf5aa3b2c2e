//! Laws on the relay's tunnels: who gets one, how long it is kept, and what is sent over it.
use crate::books;
use crate::channel;
use crate::channel::{answer_channel, send_answer, Link};
use crate::protocol::{ControlMessage, CreateTunnelRequest, ForwardResponse, TunnelCreated};
use crate::relay::{reap, reap_at};
use crate::subdomain;
use crate::text;
use crate::token;
use crate::tunnel_manager::{CreateTunnelError, DispatchError, RegisterError, TunnelManager};
use tokio::sync::mpsc::UnboundedSender;
use tokio::sync::oneshot;
use vstd::prelude::*;

verus! {

/// A new relay knows its domain, and no tunnel.
pub proof fn new_relay_has_no_tunnels(domain: &str, manager: TunnelManager)
    requires
        call_ensures(TunnelManager::new, (domain,), manager),
    ensures
        manager.wf(),
        manager@.domain == domain@,
        manager@.clock.started(),
        forall|id: Seq<char>| !(#[trigger] manager@.sessions.contains_key(id)),
        forall|id: Seq<char>| !(#[trigger] manager@.reservations.contains_key(id)),
        forall|id: Seq<char>| !(#[trigger] manager@.pending.contains_key(id)),
        manager@.sent.len() == 0,
{
}

/// The relay tells the time by its own clock.
pub proof fn relay_goes_by_its_clock(manager: &TunnelManager, nanos: u128)
    requires
        call_ensures(TunnelManager::now, (manager,), nanos),
    ensures
        manager@.clock.reads(nanos),
{
}

/// A tunnel, reserved or live, has this public host.
pub open spec fn is_taken(books: books::Books, host: Seq<char>) -> bool {
    ||| exists|id: Seq<char>| #[trigger]
        books.sessions.contains_key(id) && books.sessions[id].public_host == host
    ||| exists|id: Seq<char>| #[trigger]
        books.reservations.contains_key(id) && books.reservations[id].public_host == host
}

/// A host is in use where a tunnel, reserved or live, has it.
pub proof fn host_in_use_belongs_to_a_tunnel(manager: &TunnelManager, host: &str, taken: bool)
    requires
        call_ensures(TunnelManager::host_in_use, (manager, host), taken),
    ensures
        taken <==> {
            ||| exists|id: Seq<char>| #[trigger]
                manager@.sessions.contains_key(id) && manager@.sessions[id].public_host == host@
            ||| exists|id: Seq<char>| #[trigger]
                manager@.reservations.contains_key(id) && manager@.reservations[id].public_host
                    == host@
        },
{
}

/// A name that can stand before the domain: 3 to 63 small letters, digits and hyphens, with no
/// hyphen at either end.
pub open spec fn is_name(s: Seq<char>) -> bool {
    &&& 3 <= s.len() <= 63
    &&& s[0] != '-'
    &&& s[s.len() - 1] != '-'
    &&& forall|i: int|
        0 <= i < s.len() ==> 'a' <= #[trigger] s[i] <= 'z' || '0' <= s[i] <= '9' || s[i] == '-'
}

/// A name of the relay's making: `rok-` and eight small letters and digits.
pub open spec fn is_made_up(s: Seq<char>) -> bool {
    &&& s.len() == 12
    &&& s.subrange(0, 4) == "rok-"@
    &&& forall|i: int| 4 <= i < 12 ==> 'a' <= #[trigger] s[i] <= 'z' || '0' <= s[i] <= '9'
}

/// A name that one draw of eight letters and digits may give.
pub open spec fn is_from_a_draw(name: Seq<char>) -> bool {
    exists|token: Seq<char>|
        {
            &&& token::drawn(token)
            &&& token.len() == 8
            &&& name == "rok-"@ + #[trigger] text::ascii_lower(token)
        }
}

proof fn lemma_drawn(name: Seq<char>)
    requires
        subdomain::is_drawn(name),
    ensures
        is_from_a_draw(name),
{
    let token = choose|token: Seq<char>|
        {
            &&& token::is_token(token, subdomain::GENERATED_LENGTH as nat)
            &&& token::drawn(token)
            &&& name == "rok-"@ + #[trigger] text::ascii_lower(token)
        };
    assert(name == "rok-"@ + text::ascii_lower(token));
}

/// The id of the tunnel with a name: `tnl_` and the name with underscores for its hyphens.
pub open spec fn id_for(name: Seq<char>) -> Seq<char> {
    "tnl_"@ + Seq::new(
        name.len(),
        |i: int|
            if name[i] == '-' {
                '_'
            } else {
                name[i]
            },
    )
}

pub(crate) proof fn lemma_id(name: Seq<char>)
    ensures
        subdomain::tunnel_id_of(name) == id_for(name),
{
    assert(subdomain::tunnel_id_of(name) =~= id_for(name));
}

pub(crate) proof fn lemma_id_parts(name: Seq<char>)
    ensures
        id_for(name).len() == 4 + name.len(),
        id_for(name).take(4) == "tnl_"@,
        forall|i: int|
            0 <= i < name.len() ==> {
                &&& name[i] == '-' ==> #[trigger] id_for(name)[4 + i] == '_'
                &&& name[i] != '-' ==> id_for(name)[4 + i] == name[i]
            },
{
    reveal_strlit("tnl_");
    assert(id_for(name).take(4) =~= "tnl_"@);
}

pub(crate) proof fn lemma_name(name: Seq<char>)
    ensures
        subdomain::valid_subdomain(name) == is_name(name),
{
    if is_name(name) {
        assert forall|i: int| 0 <= i < name.len() implies subdomain::is_label_char(
            #[trigger] name[i],
        ) by {}
    }
    if subdomain::valid_subdomain(name) {
        assert forall|i: int| 0 <= i < name.len() implies 'a' <= #[trigger] name[i] <= 'z' || '0'
            <= name[i] <= '9' || name[i] == '-' by {
            assert(subdomain::is_label_char(name[i]));
        }
    }
}

pub(crate) proof fn lemma_made_up(name: Seq<char>)
    ensures
        subdomain::is_generated(name) == is_made_up(name),
{
    reveal_strlit("rok-");
    if subdomain::is_generated(name) {
        let token = choose|token: Seq<char>|
            token::is_token(token, subdomain::GENERATED_LENGTH as nat) && name == "rok-"@
                + #[trigger] text::ascii_lower(token);
        assert(name.subrange(0, 4) =~= "rok-"@);
        assert forall|i: int| 4 <= i < 12 implies 'a' <= #[trigger] name[i] <= 'z' || '0'
            <= name[i] <= '9' by {
            assert(token::is_alphanumeric(token[i - 4]));
            assert(name[i] == text::ascii_lower_char(token[i - 4]));
        }
    }
    if is_made_up(name) {
        let token = name.subrange(4, 12);
        assert forall|i: int| 0 <= i < 8 implies token::is_alphanumeric(#[trigger] token[i]) by {
            assert('a' <= name[i + 4] <= 'z' || '0' <= name[i + 4] <= '9');
        }
        assert(text::ascii_lower(token) =~= token) by {
            assert forall|i: int| 0 <= i < 8 implies text::ascii_lower(token)[i] == token[i] by {
                assert('a' <= name[i + 4] <= 'z' || '0' <= name[i + 4] <= '9');
            }
        }
        assert(name =~= name.subrange(0, 4) + token);
        assert(token::is_token(token, subdomain::GENERATED_LENGTH as nat));
    }
}

/// A tunnel to a port is reserved under a name, for a minute from `now` on: the client is given the
/// id of the tunnel, its public URL, the address of the port and the token, and the reservation
/// holds the same. Nothing else changes.
pub open spec fn is_reserved(
    before: books::Books,
    after: books::Books,
    name: Seq<char>,
    port: u16,
    token: Seq<char>,
    now: u128,
    created: TunnelCreated,
) -> bool {
    let id = id_for(name);
    let host = name + "."@ + before.domain;
    &&& created.tunnel_id@ == id
    &&& created.url@ == "https://"@ + host
    &&& created.local_addr@ == "http://127.0.0.1:"@ + text::decimal(port as nat)
    &&& created.registration_token@ == token
    &&& after.reservations.contains_key(id)
    &&& after.reservations == before.reservations.insert(id, after.reservations[id])
    &&& after.reservations[id].public_host == host
    &&& after.reservations[id].local_addr == created.local_addr@
    &&& after.reservations[id].registration_token == token
    &&& after.reservations[id].expires_at == now + 60_000_000_000
    &&& after == (books::Books { reservations: after.reservations, ..before })
}

/// A free name is reserved, for a minute from `now` on: the client is given the id of the tunnel,
/// its public URL, the address of its port and the token, and the reservation holds the same. A
/// name that is taken is refused. Nothing else changes.
pub proof fn free_name_is_reserved(
    manager: &mut TunnelManager,
    name: &str,
    port: u16,
    token: String,
    now: u128,
    created: Result<TunnelCreated, CreateTunnelError>,
)
    requires
        now + 60_000_000_000 <= u128::MAX,
        call_ensures(TunnelManager::reserve_at, (manager, name, port, token, now), created),
    ensures
        created is Ok == !is_taken(old(manager)@, name@ + "."@ + old(manager)@.domain),
        created matches Err(error) ==> {
            &&& error == CreateTunnelError::SubdomainUnavailable
            &&& final(manager)@ == old(manager)@
        },
        created matches Ok(created) ==> {
            let id = created.tunnel_id@;
            let host = name@ + "."@ + old(manager)@.domain;
            let reservation = final(manager)@.reservations[id];
            &&& id.len() == 4 + name@.len()
            &&& id.take(4) == "tnl_"@
            &&& forall|i: int|
                0 <= i < name@.len() ==> {
                    &&& name@[i] == '-' ==> #[trigger] id[4 + i] == '_'
                    &&& name@[i] != '-' ==> id[4 + i] == name@[i]
                }
            &&& created.url@ == "https://"@ + host
            &&& created.local_addr@ == "http://127.0.0.1:"@ + text::decimal(port as nat)
            &&& created.registration_token@ == token@
            &&& final(manager)@.reservations.contains_key(id)
            &&& final(manager)@.reservations == old(manager)@.reservations.insert(id, reservation)
            &&& reservation.public_host == host
            &&& reservation.local_addr == "http://127.0.0.1:"@ + text::decimal(port as nat)
            &&& reservation.registration_token == token@
            &&& reservation.expires_at == now + 60_000_000_000
            &&& final(manager)@ == (books::Books {
                reservations: final(manager)@.reservations,
                ..old(manager)@
            })
        },
{
    lemma_id(name@);
    lemma_id_parts(name@);
}

/// A tunnel is reserved for a request, under a token of 24 letters and digits that a draw may give,
/// at a time that the clock may read.
pub open spec fn is_reserved_for(
    before: books::Books,
    after: books::Books,
    name: Seq<char>,
    port: u16,
    now: u128,
    created: TunnelCreated,
) -> bool {
    let token = created.registration_token@;
    &&& before.clock.reads(now)
    &&& token::drawn(token)
    &&& token.len() == 24
    &&& forall|i: int|
        0 <= i < 24 ==> 'a' <= #[trigger] token[i] <= 'z' || 'A' <= token[i] <= 'Z' || '0'
            <= token[i] <= '9'
    &&& !is_taken(before, name + "."@ + before.domain)
    &&& is_reserved(before, after, name, port, token, now, created)
}

/// What comes of a request for a tunnel. A client that asks for a name gets the name without white
/// space around it and in lower case, is refused where that is no name, and is refused where it is
/// taken. A client that asks for none gets a free name of the relay's making, and is refused only
/// where all of them are taken; the name is one that a draw may give, unless one of those is taken.
/// Where a client is refused, nothing changes.
pub open spec fn is_created(
    before: books::Books,
    after: books::Books,
    request: CreateTunnelRequest,
    created: Result<TunnelCreated, CreateTunnelError>,
) -> bool {
    match request.subdomain {
        Some(asked) => {
            let name = text::ascii_lower(text::trim(asked@));
            match created {
                Ok(created) => {
                    &&& is_name(name)
                    &&& exists|now: u128| #[trigger]
                        is_reserved_for(before, after, name, request.port, now, created)
                },
                Err(CreateTunnelError::InvalidSubdomain) => !is_name(name) && after == before,
                Err(CreateTunnelError::SubdomainUnavailable) => {
                    &&& is_name(name)
                    &&& is_taken(before, name + "."@ + before.domain)
                    &&& after == before
                },
            }
        },
        None => match created {
            Ok(created) => exists|name: Seq<char>, now: u128|
                {
                    &&& #[trigger] is_reserved_for(
                        before,
                        after,
                        name,
                        request.port,
                        now,
                        created,
                    )
                    &&& is_made_up(name)
                    &&& is_from_a_draw(name) || exists|drawn: Seq<char>| #[trigger]
                        is_from_a_draw(drawn) && is_taken(before, drawn + "."@ + before.domain)
                },
            Err(error) => {
                &&& error == CreateTunnelError::SubdomainUnavailable
                &&& forall|name: Seq<char>| #[trigger]
                    is_made_up(name) ==> is_taken(before, name + "."@ + before.domain)
                &&& after == before
            },
        },
    }
}

proof fn lemma_reserved_with(
    before: books::Books,
    after: books::Books,
    name: Seq<char>,
    port: u16,
    token: Seq<char>,
    now: u128,
    created: Result<TunnelCreated, CreateTunnelError>,
)
    requires
        before.reserved_with(name, port, token, now, after, books::created_view(created)),
    ensures
        match created {
            Ok(created) => is_reserved_for(before, after, name, port, now, created),
            Err(error) => {
                &&& error == CreateTunnelError::SubdomainUnavailable
                &&& is_taken(before, name + "."@ + before.domain)
                &&& after == before
            },
        },
{
    before.clock.reading_is_bounded(now);
    lemma_id(name);
    if created is Ok {
        assert forall|i: int| 0 <= i < 24 implies 'a' <= #[trigger] token[i] <= 'z' || 'A'
            <= token[i] <= 'Z' || '0' <= token[i] <= '9' by {
            assert(token::is_alphanumeric(token[i]));
        }
    }
}

pub(crate) proof fn lemma_created(
    before: books::Books,
    after: books::Books,
    request: CreateTunnelRequest,
    created: Result<TunnelCreated, CreateTunnelError>,
)
    requires
        before.created(request@, after, books::created_view(created)),
    ensures
        is_created(before, after, request, created),
{
    let answer = books::created_view(created);
    match request.subdomain {
        Some(asked) => {
            let name = subdomain::normalized(asked@);
            lemma_name(name);
            if is_name(name) {
                let (token, now) = choose|token: Seq<char>, now: u128| #[trigger]
                    before.reserved_with(name, request.port, token, now, after, answer);
                lemma_reserved_with(before, after, name, request.port, token, now, created);
            }
        },
        None => {
            if exists|name: Seq<char>, token: Seq<char>, now: u128|
                {
                    &&& subdomain::is_generated(name)
                    &&& before.free(name)
                    &&& subdomain::is_drawn(name) || before.drawn_name_taken()
                    &&& #[trigger] before.reserved_with(
                        name,
                        request.port,
                        token,
                        now,
                        after,
                        answer,
                    )
                } {
                let (name, token, now) = choose|name: Seq<char>, token: Seq<char>, now: u128|
                    {
                        &&& subdomain::is_generated(name)
                        &&& before.free(name)
                        &&& subdomain::is_drawn(name) || before.drawn_name_taken()
                        &&& #[trigger] before.reserved_with(
                            name,
                            request.port,
                            token,
                            now,
                            after,
                            answer,
                        )
                    };
                lemma_reserved_with(before, after, name, request.port, token, now, created);
                lemma_made_up(name);
                if subdomain::is_drawn(name) {
                    lemma_drawn(name);
                } else {
                    let drawn = choose|drawn: Seq<char>|
                        subdomain::is_drawn(drawn) && !(#[trigger] before.free(drawn));
                    lemma_drawn(drawn);
                    assert(is_taken(before, drawn + "."@ + before.domain));
                }
            } else {
                assert forall|name: Seq<char>| #[trigger] is_made_up(name) implies is_taken(
                    before,
                    name + "."@ + before.domain,
                ) by {
                    lemma_made_up(name);
                    assert(!before.free(name));
                }
            }
        },
    }
}

/// A request for a tunnel ends as [`is_created`] says.
pub proof fn tunnel_is_created(
    manager: &mut TunnelManager,
    request: CreateTunnelRequest,
    created: Result<TunnelCreated, CreateTunnelError>,
)
    requires
        call_ensures(TunnelManager::create_tunnel, (manager, request), created),
    ensures
        is_created(old(manager)@, final(manager)@, request, created),
{
    lemma_created(old(manager)@, final(manager)@, request, created);
}

/// A client that asks for a name gets that name, without white space around it and in lower case.
/// It is refused where that is no name, which is 3 to 63 small letters, digits and hyphens, without
/// a hyphen at either end; and where the name is taken. Where it is refused, nothing changes.
pub proof fn asked_name_is_given_or_refused(
    manager: &mut TunnelManager,
    request: CreateTunnelRequest,
    asked: &str,
    inner: &str,
    name: String,
    created: Result<TunnelCreated, CreateTunnelError>,
)
    requires
        call_ensures(TunnelManager::create_tunnel, (manager, request), created),
        request.subdomain is Some,
        request.subdomain->Some_0@ == asked@,
        call_ensures(text::trimmed, (asked,), inner),
        call_ensures(text::to_ascii_lower, (inner,), name),
    ensures
        ({
            let valid = {
                &&& 3 <= name@.len() <= 63
                &&& name@[0] != '-'
                &&& name@[name@.len() - 1] != '-'
                &&& forall|i: int|
                    0 <= i < name@.len() ==> 'a' <= #[trigger] name@[i] <= 'z' || '0' <= name@[i]
                        <= '9' || name@[i] == '-'
            };
            let host = name@ + "."@ + old(manager)@.domain;
            let taken = {
                ||| exists|id: Seq<char>| #[trigger]
                    old(manager)@.sessions.contains_key(id)
                        && old(manager)@.sessions[id].public_host == host
                ||| exists|id: Seq<char>| #[trigger]
                    old(manager)@.reservations.contains_key(id)
                        && old(manager)@.reservations[id].public_host == host
            };
            &&& !valid ==> created == Err::<TunnelCreated, _>(CreateTunnelError::InvalidSubdomain)
            &&& valid && taken ==> created == Err::<TunnelCreated, _>(
                CreateTunnelError::SubdomainUnavailable,
            )
            &&& valid && !taken ==> created is Ok && created->Ok_0.url@ == "https://"@ + host
            &&& created is Err ==> final(manager)@ == old(manager)@
        }),
{
    lemma_created(old(manager)@, final(manager)@, request, created);
}

/// A client that asks for no name gets one of the relay's making, `rok-` and eight small letters
/// and digits, that is free. It is refused only where all of these are taken.
pub proof fn unnamed_request_gets_a_made_up_name(
    manager: &mut TunnelManager,
    request: CreateTunnelRequest,
    created: Result<TunnelCreated, CreateTunnelError>,
)
    requires
        call_ensures(TunnelManager::create_tunnel, (manager, request), created),
        request.subdomain is None,
    ensures
        match created {
            Ok(created) => {
                let name = created.url@.subrange(8, 20);
                &&& created.url@ == "https://"@ + name + "."@ + old(manager)@.domain
                &&& name.take(4) == "rok-"@
                &&& forall|i: int|
                    4 <= i < 12 ==> 'a' <= #[trigger] name[i] <= 'z' || '0' <= name[i] <= '9'
                &&& is_from_a_draw(name) || exists|drawn: Seq<char>| #[trigger]
                    is_from_a_draw(drawn) && is_taken(
                        old(manager)@,
                        drawn + "."@ + old(manager)@.domain,
                    )
                &&& forall|id: Seq<char>| #[trigger]
                    old(manager)@.sessions.contains_key(id) ==> "https://"@
                        + old(manager)@.sessions[id].public_host != created.url@
                &&& forall|id: Seq<char>| #[trigger]
                    old(manager)@.reservations.contains_key(id) ==> "https://"@
                        + old(manager)@.reservations[id].public_host != created.url@
            },
            Err(error) => {
                &&& error == CreateTunnelError::SubdomainUnavailable
                &&& final(manager)@ == old(manager)@
                &&& forall|name: Seq<char>| #[trigger]
                    is_made_up(name) ==> is_taken(
                        old(manager)@,
                        name + "."@ + old(manager)@.domain,
                    )
            },
        },
{
    lemma_created(old(manager)@, final(manager)@, request, created);
    if let Ok(created) = created {
        lemma_unnamed(old(manager)@, final(manager)@, request.port, created);
    }
}

proof fn lemma_unnamed(
    before: books::Books,
    after: books::Books,
    port: u16,
    created: TunnelCreated,
)
    requires
        exists|name: Seq<char>, now: u128|
            {
                &&& #[trigger] is_reserved_for(before, after, name, port, now, created)
                &&& is_made_up(name)
                &&& is_from_a_draw(name) || exists|drawn: Seq<char>| #[trigger]
                    is_from_a_draw(drawn) && is_taken(before, drawn + "."@ + before.domain)
            },
    ensures
        ({
            let name = created.url@.subrange(8, 20);
            &&& created.url@ == "https://"@ + name + "."@ + before.domain
            &&& name.take(4) == "rok-"@
            &&& forall|i: int|
                4 <= i < 12 ==> 'a' <= #[trigger] name[i] <= 'z' || '0' <= name[i] <= '9'
            &&& is_from_a_draw(name) || exists|drawn: Seq<char>| #[trigger]
                is_from_a_draw(drawn) && is_taken(before, drawn + "."@ + before.domain)
        }),
        forall|id: Seq<char>| #[trigger]
            before.sessions.contains_key(id) ==> "https://"@ + before.sessions[id].public_host
                != created.url@,
        forall|id: Seq<char>| #[trigger]
            before.reservations.contains_key(id) ==> "https://"@
                + before.reservations[id].public_host != created.url@,
{
    reveal_strlit("https://");
    let (name, now) = choose|name: Seq<char>, now: u128|
        {
            &&& #[trigger] is_reserved_for(before, after, name, port, now, created)
            &&& is_made_up(name)
            &&& is_from_a_draw(name) || exists|drawn: Seq<char>| #[trigger]
                is_from_a_draw(drawn) && is_taken(before, drawn + "."@ + before.domain)
        };
    let host = name + "."@ + before.domain;
    let url = created.url@;
    assert(url.subrange(8, 20) =~= name);
    assert(url =~= "https://"@ + name + "."@ + before.domain);
    assert(name.take(4) =~= name.subrange(0, 4));
    assert forall|id: Seq<char>| #[trigger] before.sessions.contains_key(id) implies "https://"@
        + before.sessions[id].public_host != url by {
        let other = before.sessions[id].public_host;
        assert(("https://"@ + other).skip(8) =~= other);
        assert(url.skip(8) =~= host);
    }
    assert forall|id: Seq<char>| #[trigger] before.reservations.contains_key(id) implies "https://"@
        + before.reservations[id].public_host != url by {
        let other = before.reservations[id].public_host;
        assert(("https://"@ + other).skip(8) =~= other);
        assert(url.skip(8) =~= host);
    }
}

/// Whatever name a client asks for, the tunnel that it is given is reserved under the id that it is
/// given, for a minute from a time that the clock may read, with the port that it asked for and a
/// token of 24 letters and digits out of a draw. Nothing else changes.
pub proof fn given_tunnel_is_reserved(
    manager: &mut TunnelManager,
    request: CreateTunnelRequest,
    created: TunnelCreated,
)
    requires
        call_ensures(
            TunnelManager::create_tunnel,
            (manager, request),
            Ok::<TunnelCreated, CreateTunnelError>(created),
        ),
    ensures
        ({
            let id = created.tunnel_id@;
            let token = created.registration_token@;
            let reservation = final(manager)@.reservations[id];
            &&& created.local_addr@ == "http://127.0.0.1:"@ + text::decimal(request.port as nat)
            &&& token::drawn(token)
            &&& token.len() == 24
            &&& forall|i: int|
                0 <= i < 24 ==> 'a' <= #[trigger] token[i] <= 'z' || 'A' <= token[i] <= 'Z' || '0'
                    <= token[i] <= '9'
            &&& final(manager)@.reservations.contains_key(id)
            &&& final(manager)@.reservations == old(manager)@.reservations.insert(id, reservation)
            &&& "https://"@ + reservation.public_host == created.url@
            &&& exists|name: Seq<char>|
                id == #[trigger] id_for(name) && reservation.public_host == name + "."@
                    + old(manager)@.domain
            &&& reservation.local_addr == created.local_addr@
            &&& reservation.registration_token == token
            &&& reservation.expires_at >= 60_000_000_000
            &&& old(manager)@.clock.reads((reservation.expires_at - 60_000_000_000) as u128)
            &&& final(manager)@ == (books::Books {
                reservations: final(manager)@.reservations,
                ..old(manager)@
            })
        }),
{
    lemma_created(
        old(manager)@,
        final(manager)@,
        request,
        Ok::<TunnelCreated, CreateTunnelError>(created),
    );
}

/// A claim at the time `now` uses up the reservation of its tunnel. Where there is one, it has not
/// expired, and the token and the address are those of the reservation, the tunnel is live over
/// `link` from `now` on. Otherwise the first of these that fails is objected to, and no live tunnel
/// changes.
pub open spec fn is_claimed(
    before: books::Books,
    after: books::Books,
    id: Seq<char>,
    addr: Seq<char>,
    token: Seq<char>,
    link: channel::LinkView,
    now: u128,
    registered: Result<(), RegisterError>,
) -> bool {
    let reservation = before.reservations[id];
    &&& registered == (if !before.reservations.contains_key(id) {
        Err(RegisterError::NoReservation)
    } else if reservation.registration_token != token {
        Err(RegisterError::InvalidToken)
    } else if now > reservation.expires_at {
        Err(RegisterError::ReservationExpired)
    } else if reservation.local_addr != addr {
        Err(RegisterError::AddressMismatch)
    } else {
        Ok(())
    })
    &&& after.reservations == before.reservations.remove(id)
    &&& if registered is Ok {
        &&& after.sessions.contains_key(id)
        &&& after.sessions == before.sessions.insert(id, after.sessions[id])
        &&& after.sessions[id].local_addr == addr
        &&& after.sessions[id].public_host == reservation.public_host
        &&& after.sessions[id].last_seen == now
        &&& after.sessions[id].link == link
    } else {
        after.sessions == before.sessions
    }
    &&& after.domain == before.domain
    &&& after.clock == before.clock
    &&& after.pending == before.pending
    &&& after.outbox == before.outbox
    &&& after.sent == before.sent
}

/// A claim at the time `now` uses up the reservation of its tunnel. It is granted where there is
/// one, the token and the address are those of the reservation, and it has not expired; then the
/// tunnel is live over the link, with the host of the reservation, and was seen at `now`. Otherwise
/// no live tunnel changes.
pub proof fn tunnel_is_claimed_at(
    manager: &mut TunnelManager,
    id: String,
    addr: String,
    token: String,
    link: Link,
    now: u128,
    registered: Result<(), RegisterError>,
)
    requires
        call_ensures(
            TunnelManager::register_client_at,
            (manager, id, addr, token, link, now),
            registered,
        ),
    ensures
        ({
            let before = old(manager)@;
            let after = final(manager)@;
            let known = before.reservations.contains_key(id@);
            let reservation = before.reservations[id@];
            let session = after.sessions[id@];
            &&& registered is Ok <==> {
                &&& known
                &&& token@ == reservation.registration_token
                &&& addr@ == reservation.local_addr
                &&& now <= reservation.expires_at
            }
            &&& registered == Err::<(), _>(RegisterError::NoReservation) <==> !known
            &&& registered == Err::<(), _>(RegisterError::InvalidToken) <==> known && token@
                != reservation.registration_token
            &&& registered == Err::<(), _>(RegisterError::ReservationExpired) <==> known && token@
                == reservation.registration_token && now > reservation.expires_at
            &&& after.reservations == before.reservations.remove(id@)
            &&& registered is Ok ==> {
                &&& after.sessions.contains_key(id@)
                &&& after.sessions == before.sessions.insert(id@, session)
                &&& session.local_addr == addr@
                &&& session.public_host == reservation.public_host
                &&& session.last_seen == now
                &&& session.link == link@
            }
            &&& registered is Err ==> after.sessions == before.sessions
            &&& after == (books::Books {
                sessions: after.sessions,
                reservations: after.reservations,
                ..before
            })
        }),
{
}

/// A claim ends as [`is_claimed`] says, at a time that the clock may read.
pub proof fn tunnel_is_claimed(
    manager: &mut TunnelManager,
    id: String,
    addr: String,
    token: String,
    link: Link,
    registered: Result<(), RegisterError>,
)
    requires
        call_ensures(TunnelManager::register_client, (manager, id, addr, token, link), registered),
    ensures
        exists|now: u128|
            old(manager)@.clock.reads(now) && #[trigger] is_claimed(
                old(manager)@,
                final(manager)@,
                id@,
                addr@,
                token@,
                link@,
                now,
                registered,
            ),
{
    lemma_claimed(old(manager)@, final(manager)@, id@, addr@, token@, link@, registered);
}

proof fn lemma_claimed(
    before: books::Books,
    after: books::Books,
    id: Seq<char>,
    addr: Seq<char>,
    token: Seq<char>,
    link: channel::LinkView,
    registered: Result<(), RegisterError>,
)
    requires
        exists|now: u128|
            {
                &&& before.clock.reads(now)
                &&& after == #[trigger] before.registered(id, addr, token, link, now)
                &&& registered == before.register_answer(id, addr, token, now)
            },
    ensures
        exists|now: u128|
            before.clock.reads(now) && #[trigger] is_claimed(
                before,
                after,
                id,
                addr,
                token,
                link,
                now,
                registered,
            ),
{
    let now = choose|now: u128|
        {
            &&& before.clock.reads(now)
            &&& after == #[trigger] before.registered(id, addr, token, link, now)
            &&& registered == before.register_answer(id, addr, token, now)
        };
    assert(is_claimed(before, after, id, addr, token, link, now, registered));
}

/// A client that goes takes its tunnel with it, and no other.
pub proof fn removed_tunnel_is_gone(manager: &mut TunnelManager, id: &str)
    requires
        call_ensures(TunnelManager::remove_client, (manager, id), ()),
    ensures
        final(manager)@.sessions == old(manager)@.sessions.remove(id@),
        final(manager)@ == (books::Books { sessions: final(manager)@.sessions, ..old(manager)@ }),
{
}

/// A sign of life of a live tunnel sets the time at which it was last seen, and nothing else; one
/// of a tunnel that is not live changes nothing.
pub proof fn sign_of_life_is_noted_at(
    manager: &mut TunnelManager,
    id: &str,
    now: u128,
    known: bool,
)
    requires
        call_ensures(TunnelManager::record_heartbeat_at, (manager, id, now), known),
    ensures
        ({
            let before = old(manager)@;
            let after = final(manager)@;
            let session = after.sessions[id@];
            &&& known == before.sessions.contains_key(id@)
            &&& known ==> {
                &&& after.sessions.contains_key(id@)
                &&& after.sessions == before.sessions.insert(id@, session)
                &&& session.last_seen == now
                &&& session.local_addr == before.sessions[id@].local_addr
                &&& session.public_host == before.sessions[id@].public_host
                &&& session.link == before.sessions[id@].link
            }
            &&& !known ==> after.sessions == before.sessions
            &&& after == (books::Books { sessions: after.sessions, ..before })
        }),
{
}

/// A sign of life of a live tunnel sets the time at which it was last seen to one that the clock
/// may read, and nothing else; one of a tunnel that is not live changes nothing.
pub proof fn sign_of_life_is_noted(manager: &mut TunnelManager, id: &str, known: bool)
    requires
        call_ensures(TunnelManager::record_heartbeat, (manager, id), known),
    ensures
        ({
            let before = old(manager)@;
            let after = final(manager)@;
            let session = after.sessions[id@];
            &&& known == before.sessions.contains_key(id@)
            &&& known ==> {
                &&& after.sessions.contains_key(id@)
                &&& after.sessions == before.sessions.insert(id@, session)
                &&& before.clock.reads(session.last_seen)
                &&& session.local_addr == before.sessions[id@].local_addr
                &&& session.public_host == before.sessions[id@].public_host
                &&& session.link == before.sessions[id@].link
            }
            &&& !known ==> after.sessions == before.sessions
            &&& after == (books::Books { sessions: after.sessions, ..before })
        }),
{
}

/// A live tunnel stays where it was last seen at most `max_age` ago at the time `now`, as it is;
/// the others are dropped.
pub open spec fn fresh_stay(
    before: Map<Seq<char>, books::SessionView>,
    after: Map<Seq<char>, books::SessionView>,
    max_age: u128,
    now: u128,
) -> bool {
    &&& forall|id: Seq<char>| #[trigger]
        after.contains_key(id) <==> before.contains_key(id) && now - before[id].last_seen
            <= max_age
    &&& forall|id: Seq<char>| #[trigger] after.contains_key(id) ==> after[id] == before[id]
}

/// A reservation stays where it expires after `now`, as it is; the others are dropped.
pub open spec fn valid_stay(
    before: Map<Seq<char>, books::ReservationView>,
    after: Map<Seq<char>, books::ReservationView>,
    now: u128,
) -> bool {
    &&& forall|id: Seq<char>| #[trigger]
        after.contains_key(id) <==> before.contains_key(id) && before[id].expires_at > now
    &&& forall|id: Seq<char>| #[trigger] after.contains_key(id) ==> after[id] == before[id]
}

/// Pruning drops the live tunnels that were not seen for too long, and nothing else.
pub proof fn stale_tunnels_are_pruned_at(manager: &mut TunnelManager, max_age: u128, now: u128)
    requires
        call_ensures(TunnelManager::prune_stale_sessions_at, (manager, max_age, now), ()),
    ensures
        forall|id: Seq<char>| #[trigger]
            final(manager)@.sessions.contains_key(id) <==> old(manager)@.sessions.contains_key(id)
                && now - old(manager)@.sessions[id].last_seen <= max_age,
        forall|id: Seq<char>| #[trigger]
            final(manager)@.sessions.contains_key(id) ==> final(manager)@.sessions[id]
                == old(manager)@.sessions[id],
        final(manager)@ == (books::Books { sessions: final(manager)@.sessions, ..old(manager)@ }),
{
}

/// Pruning drops the reservations that have run out, and nothing else.
pub proof fn stale_reservations_are_pruned_at(manager: &mut TunnelManager, now: u128)
    requires
        call_ensures(TunnelManager::prune_stale_reservations_at, (manager, now), ()),
    ensures
        forall|id: Seq<char>| #[trigger]
            final(manager)@.reservations.contains_key(id)
                <==> old(manager)@.reservations.contains_key(id)
                && old(manager)@.reservations[id].expires_at > now,
        forall|id: Seq<char>| #[trigger]
            final(manager)@.reservations.contains_key(id) ==> final(manager)@.reservations[id]
                == old(manager)@.reservations[id],
        final(manager)@ == (books::Books {
            reservations: final(manager)@.reservations,
            ..old(manager)@
        }),
{
}

/// The reaper at the time `now` keeps the live tunnels that were seen within a minute and a half,
/// and the reservations that have not run out, as they are. It touches nothing else.
pub open spec fn is_reaped(before: books::Books, after: books::Books, now: u128) -> bool {
    &&& fresh_stay(before.sessions, after.sessions, 90_000_000_000, now)
    &&& valid_stay(before.reservations, after.reservations, now)
    &&& after.domain == before.domain
    &&& after.clock == before.clock
    &&& after.pending == before.pending
    &&& after.outbox == before.outbox
    &&& after.sent == before.sent
}

/// The reaper at the time `now` keeps the live tunnels that were seen within a minute and a half,
/// and the reservations that have not run out, as they are. It touches nothing else.
pub proof fn reaper_keeps_what_is_fresh_at(manager: &mut TunnelManager, now: u128)
    requires
        call_ensures(reap_at, (manager, now), ()),
    ensures
        forall|id: Seq<char>| #[trigger]
            final(manager)@.sessions.contains_key(id) <==> old(manager)@.sessions.contains_key(id)
                && now - old(manager)@.sessions[id].last_seen <= 90_000_000_000,
        forall|id: Seq<char>| #[trigger]
            final(manager)@.sessions.contains_key(id) ==> final(manager)@.sessions[id]
                == old(manager)@.sessions[id],
        forall|id: Seq<char>| #[trigger]
            final(manager)@.reservations.contains_key(id)
                <==> old(manager)@.reservations.contains_key(id)
                && old(manager)@.reservations[id].expires_at > now,
        forall|id: Seq<char>| #[trigger]
            final(manager)@.reservations.contains_key(id) ==> final(manager)@.reservations[id]
                == old(manager)@.reservations[id],
        final(manager)@ == (books::Books {
            sessions: final(manager)@.sessions,
            reservations: final(manager)@.reservations,
            ..old(manager)@
        }),
{
}

proof fn lemma_fresh_stay(before: books::Books, after: books::Books, max_age: u128)
    requires
        exists|now: u128|
            before.clock.reads(now) && after == #[trigger] before.with_fresh_sessions(
                max_age,
                now,
            ),
    ensures
        exists|now: u128|
            before.clock.reads(now) && #[trigger] fresh_stay(
                before.sessions,
                after.sessions,
                max_age,
                now,
            ),
        after == (books::Books { sessions: after.sessions, ..before }),
{
    let now = choose|now: u128|
        before.clock.reads(now) && after == #[trigger] before.with_fresh_sessions(max_age, now);
    assert(fresh_stay(before.sessions, after.sessions, max_age, now));
}

/// Pruning drops the live tunnels that were not seen for too long at a time that the clock may
/// read, and nothing else.
pub proof fn stale_tunnels_are_pruned(manager: &mut TunnelManager, max_age: u128)
    requires
        call_ensures(TunnelManager::prune_stale_sessions, (manager, max_age), ()),
    ensures
        exists|now: u128|
            old(manager)@.clock.reads(now) && #[trigger] fresh_stay(
                old(manager)@.sessions,
                final(manager)@.sessions,
                max_age,
                now,
            ),
        final(manager)@ == (books::Books { sessions: final(manager)@.sessions, ..old(manager)@ }),
{
    lemma_fresh_stay(old(manager)@, final(manager)@, max_age);
}

proof fn lemma_valid_stay(before: books::Books, after: books::Books)
    requires
        exists|now: u128|
            before.clock.reads(now) && after == #[trigger] before.with_valid_reservations(now),
    ensures
        exists|now: u128|
            before.clock.reads(now) && #[trigger] valid_stay(
                before.reservations,
                after.reservations,
                now,
            ),
        after == (books::Books { reservations: after.reservations, ..before }),
{
    let now = choose|now: u128|
        before.clock.reads(now) && after == #[trigger] before.with_valid_reservations(now);
    assert(valid_stay(before.reservations, after.reservations, now));
}

/// Pruning drops the reservations that have run out at a time that the clock may read, and nothing
/// else.
pub proof fn stale_reservations_are_pruned(manager: &mut TunnelManager)
    requires
        call_ensures(TunnelManager::prune_stale_reservations, (manager,), ()),
    ensures
        exists|now: u128|
            old(manager)@.clock.reads(now) && #[trigger] valid_stay(
                old(manager)@.reservations,
                final(manager)@.reservations,
                now,
            ),
        final(manager)@ == (books::Books {
            reservations: final(manager)@.reservations,
            ..old(manager)@
        }),
{
    lemma_valid_stay(old(manager)@, final(manager)@);
}

proof fn lemma_reaped(before: books::Books, after: books::Books)
    requires
        exists|now: u128|
            before.clock.reads(now) && after == (#[trigger] before.with_fresh_sessions(
                crate::relay::SESSION_MAX_AGE,
                now,
            )).with_valid_reservations(now),
    ensures
        exists|now: u128| before.clock.reads(now) && #[trigger] is_reaped(before, after, now),
{
    let now = choose|now: u128|
        before.clock.reads(now) && after == (#[trigger] before.with_fresh_sessions(
            crate::relay::SESSION_MAX_AGE,
            now,
        )).with_valid_reservations(now);
    assert(is_reaped(before, after, now));
}

/// The reaper does what [`is_reaped`] says, at a time that the clock may read.
pub proof fn reaper_keeps_what_is_fresh(manager: &mut TunnelManager)
    requires
        call_ensures(reap, (manager,), ()),
    ensures
        exists|now: u128|
            old(manager)@.clock.reads(now) && #[trigger] is_reaped(
                old(manager)@,
                final(manager)@,
                now,
            ),
{
    lemma_reaped(old(manager)@, final(manager)@);
}

/// The address behind a tunnel is known where the tunnel is live.
pub proof fn live_tunnel_has_its_address(manager: &TunnelManager, id: &str, addr: Option<String>)
    requires
        call_ensures(TunnelManager::client_addr, (manager, id), addr),
    ensures
        match addr {
            Some(addr) => {
                &&& manager@.sessions.contains_key(id@)
                &&& addr@ == manager@.sessions[id@].local_addr
            },
            None => !manager@.sessions.contains_key(id@),
        },
{
}

/// The live tunnels are counted.
pub proof fn live_tunnels_are_counted(manager: &TunnelManager, count: usize)
    requires
        call_ensures(TunnelManager::session_count, (manager,), count),
    ensures
        manager@.sessions.dom().finite(),
        count == manager@.sessions.dom().len(),
{
}

/// A link over a sender leads to it, through the outbox of the relay.
pub proof fn link_leads_to_its_sender(
    manager: &TunnelManager,
    sender: UnboundedSender<ControlMessage>,
    link: Link,
)
    requires
        call_ensures(TunnelManager::link, (manager, sender), link),
    ensures
        link@.channel == sender,
        link@.outbox == manager@.outbox,
{
}

/// Another link to a client leads to it over the same channel, through the same outbox.
pub proof fn duplicate_leads_to_the_same_client(link: &Link, copy: Link)
    requires
        call_ensures(Link::duplicate, (link,), copy),
    ensures
        channel::same_channel(link@.channel, copy@.channel),
        copy@.outbox == link@.outbox,
{
}

/// The two ends of a channel for an answer belong together, and what is handed to the one is sent
/// as it is.
pub proof fn answer_is_sent_into_its_channel(
    halves: (oneshot::Sender<ForwardResponse>, oneshot::Receiver<ForwardResponse>),
    response: ForwardResponse,
    sent: bool,
)
    requires
        call_ensures(answer_channel, (), halves),
        call_ensures(send_answer, (halves.0, response), sent),
    ensures
        channel::one_channel(halves.0, halves.1),
        channel::answered_on(halves.0, response, sent),
{
}

/// What is told over a link is sent once, over the link's channel, as it is.
pub proof fn message_is_sent_over_its_link(
    manager: &mut TunnelManager,
    link: &Link,
    message: ControlMessage,
    delivered: bool,
)
    requires
        call_ensures(TunnelManager::tell, (manager, link, message), delivered),
    ensures
        final(manager)@.sent.len() == old(manager)@.sent.len() + 1,
        final(manager)@.sent.drop_last() == old(manager)@.sent,
        final(manager)@.sent.last().channel == link@.channel,
        final(manager)@.sent.last().message == message,
        final(manager)@.sent.last().delivered == delivered,
        final(manager)@ == (books::Books { sent: final(manager)@.sent, ..old(manager)@ }),
{
    assert(final(manager)@.sent.drop_last() =~= old(manager)@.sent);
}

/// Whoever is let wait for the answer to a request waits for it, and for no other.
pub proof fn reply_waits_for_its_answer(
    manager: &mut TunnelManager,
    request_id: String,
    reply: oneshot::Sender<ForwardResponse>,
)
    requires
        call_ensures(TunnelManager::await_answer, (manager, request_id, reply), ()),
    ensures
        final(manager)@.pending == old(manager)@.pending.insert(request_id@, reply),
        final(manager)@ == (books::Books { pending: final(manager)@.pending, ..old(manager)@ }),
{
}

/// The reply that waits for an answer is taken out once, and no other is.
pub proof fn waiting_reply_is_taken_out(
    manager: &mut TunnelManager,
    request_id: &str,
    reply: Option<oneshot::Sender<ForwardResponse>>,
)
    requires
        call_ensures(TunnelManager::take_waiting, (manager, request_id), reply),
    ensures
        reply == (if old(manager)@.pending.contains_key(request_id@) {
            Some(old(manager)@.pending[request_id@])
        } else {
            None
        }),
        final(manager)@.pending == old(manager)@.pending.remove(request_id@),
        final(manager)@ == (books::Books { pending: final(manager)@.pending, ..old(manager)@ }),
{
}

/// A dispatch whose message was sent goes on waiting; one whose message was not waits no more.
pub proof fn dispatch_is_settled(
    manager: &mut TunnelManager,
    request_id: &str,
    waiting: oneshot::Receiver<ForwardResponse>,
    sent: bool,
    dispatched: Result<oneshot::Receiver<ForwardResponse>, DispatchError>,
)
    requires
        call_ensures(
            TunnelManager::settle_dispatch,
            (manager, request_id, waiting, sent),
            dispatched,
        ),
    ensures
        match dispatched {
            Ok(end) => sent && end == waiting && final(manager)@ == old(manager)@,
            Err(error) => {
                &&& !sent
                &&& error == DispatchError::SendFailed
                &&& final(manager)@.pending == old(manager)@.pending.remove(request_id@)
                &&& final(manager)@ == (books::Books {
                    pending: final(manager)@.pending,
                    ..old(manager)@
                })
            },
        },
{
}

/// A request for a live tunnel is sent once, to the client of that tunnel and to no one else, as it
/// is. Where the client takes it, the other end of the channel that is returned waits for the
/// answer; where it does not, nobody waits. A request for a tunnel that is not live changes
/// nothing.
pub proof fn request_is_dispatched(
    manager: &mut TunnelManager,
    tunnel_id: &str,
    request_id: String,
    message: ControlMessage,
    dispatched: Result<oneshot::Receiver<ForwardResponse>, DispatchError>,
)
    requires
        call_ensures(
            TunnelManager::dispatch_request,
            (manager, tunnel_id, request_id, message),
            dispatched,
        ),
    ensures
        ({
            let before = old(manager)@;
            let after = final(manager)@;
            let live = before.sessions.contains_key(tunnel_id@);
            let sent = after.sent.last();
            let id = request_id@;
            &&& !live ==> {
                &&& dispatched matches Err(error) && error == DispatchError::NoSession
                &&& after == before
            }
            &&& live ==> {
                &&& after.sent.len() == before.sent.len() + 1
                &&& after.sent.drop_last() == before.sent
                &&& sent.channel == before.sessions[tunnel_id@].link.channel
                &&& sent.message == message
                &&& sent.delivered == (dispatched is Ok)
                &&& dispatched matches Ok(waiting) ==> {
                    &&& after.pending.contains_key(id)
                    &&& after.pending == before.pending.insert(id, after.pending[id])
                    &&& channel::one_channel(after.pending[id], waiting)
                }
                &&& dispatched matches Err(error) ==> {
                    &&& error == DispatchError::SendFailed
                    &&& after.pending == before.pending.remove(id)
                }
                &&& after == (books::Books { pending: after.pending, sent: after.sent, ..before })
            }
        }),
{
    if old(manager)@.sessions.contains_key(tunnel_id@) {
        assert(final(manager)@.sent.drop_last() =~= old(manager)@.sent);
    }
}

/// An answer is handed, as it is, to whoever waits under its id, who then waits no more; nobody
/// else is concerned.
pub proof fn answer_is_handed_to_its_request(
    manager: &mut TunnelManager,
    response: ForwardResponse,
    resolved: bool,
)
    requires
        call_ensures(TunnelManager::resolve_response, (manager, response), resolved),
    ensures
        if old(manager)@.pending.contains_key(response.request_id@) {
            channel::answered_on(
                old(manager)@.pending[response.request_id@],
                response,
                resolved,
            )
        } else {
            !resolved
        },
        final(manager)@.pending == old(manager)@.pending.remove(response.request_id@),
        final(manager)@ == (books::Books { pending: final(manager)@.pending, ..old(manager)@ }),
{
}

/// The client that claims a tunnel with what it was given, within a minute, is reached at the
/// address of the port that it asked for.
pub proof fn given_tunnel_can_be_claimed(
    reserving: &mut TunnelManager,
    name: &str,
    port: u16,
    token: String,
    reserved_at: u128,
    created: TunnelCreated,
    claiming: &mut TunnelManager,
    link: Link,
    claimed_at: u128,
    registered: Result<(), RegisterError>,
    asked: &TunnelManager,
    id: &str,
    addr: Option<String>,
)
    requires
        reserved_at + 60_000_000_000 <= u128::MAX,
        call_ensures(
            TunnelManager::reserve_at,
            (reserving, name, port, token, reserved_at),
            Ok::<TunnelCreated, CreateTunnelError>(created),
        ),
        *old(claiming) == *final(reserving),
        call_ensures(
            TunnelManager::register_client_at,
            (
                claiming,
                created.tunnel_id,
                created.local_addr,
                created.registration_token,
                link,
                claimed_at,
            ),
            registered,
        ),
        claimed_at <= reserved_at + 60_000_000_000,
        *asked == *final(claiming),
        id@ == created.tunnel_id@,
        call_ensures(TunnelManager::client_addr, (asked, id), addr),
    ensures
        registered is Ok,
        addr is Some,
        addr->Some_0@ == "http://127.0.0.1:"@ + text::decimal(port as nat),
{
}

/// A claim after the minute is refused, and no tunnel comes of it.
pub proof fn late_claim_is_refused(
    reserving: &mut TunnelManager,
    name: &str,
    port: u16,
    token: String,
    reserved_at: u128,
    created: TunnelCreated,
    claiming: &mut TunnelManager,
    link: Link,
    claimed_at: u128,
    registered: Result<(), RegisterError>,
)
    requires
        reserved_at + 60_000_000_000 <= u128::MAX,
        call_ensures(
            TunnelManager::reserve_at,
            (reserving, name, port, token, reserved_at),
            Ok::<TunnelCreated, CreateTunnelError>(created),
        ),
        *old(claiming) == *final(reserving),
        call_ensures(
            TunnelManager::register_client_at,
            (
                claiming,
                created.tunnel_id,
                created.local_addr,
                created.registration_token,
                link,
                claimed_at,
            ),
            registered,
        ),
        claimed_at > reserved_at + 60_000_000_000,
    ensures
        registered == Err::<(), _>(RegisterError::ReservationExpired),
        final(claiming)@.sessions == old(claiming)@.sessions,
{
}

/// A name that was just given to one client is refused to the next.
pub proof fn given_name_is_refused(
    first: &mut TunnelManager,
    name: &str,
    port: u16,
    token: String,
    now: u128,
    created: TunnelCreated,
    second: &mut TunnelManager,
    other_port: u16,
    other_token: String,
    later: u128,
    refused: Result<TunnelCreated, CreateTunnelError>,
)
    requires
        call_ensures(
            TunnelManager::reserve_at,
            (first, name, port, token, now),
            Ok::<TunnelCreated, CreateTunnelError>(created),
        ),
        *old(second) == *final(first),
        call_ensures(
            TunnelManager::reserve_at,
            (second, name, other_port, other_token, later),
            refused,
        ),
    ensures
        refused == Err::<TunnelCreated, _>(CreateTunnelError::SubdomainUnavailable),
{
    assert(final(first)@.reservations.contains_key(subdomain::tunnel_id_of(name@)));
}

/// A client that has gone has no address any more.
pub proof fn removed_tunnel_has_no_address(
    manager: &mut TunnelManager,
    id: &str,
    asked: &TunnelManager,
    addr: Option<String>,
)
    requires
        call_ensures(TunnelManager::remove_client, (manager, id), ()),
        *asked == *final(manager),
        call_ensures(TunnelManager::client_addr, (asked, id), addr),
    ensures
        addr is None,
{
}

/// A tunnel whose sign of life was known at the time `seen` outlives the pruning at the time `now`
/// exactly where the sign is not too old.
pub proof fn sign_of_life_keeps_a_tunnel(
    beating: &mut TunnelManager,
    id: &str,
    seen: u128,
    pruning: &mut TunnelManager,
    max_age: u128,
    now: u128,
    asked: &TunnelManager,
    addr: Option<String>,
)
    requires
        call_ensures(TunnelManager::record_heartbeat_at, (beating, id, seen), true),
        *old(pruning) == *final(beating),
        call_ensures(TunnelManager::prune_stale_sessions_at, (pruning, max_age, now), ()),
        *asked == *final(pruning),
        call_ensures(TunnelManager::client_addr, (asked, id), addr),
    ensures
        addr is Some <==> now - seen <= max_age,
{
}

/// A request that a client took is answered once: the answer goes into the channel whose end was
/// returned, and a second answer under the same id goes nowhere.
pub proof fn dispatched_request_is_answered_once(
    dispatching: &mut TunnelManager,
    tunnel_id: &str,
    request_id: String,
    message: ControlMessage,
    waiting: oneshot::Receiver<ForwardResponse>,
    answering: &mut TunnelManager,
    response: ForwardResponse,
    resolved: bool,
    again: &mut TunnelManager,
    second: ForwardResponse,
    second_resolved: bool,
) -> (reply: oneshot::Sender<ForwardResponse>)
    requires
        call_ensures(
            TunnelManager::dispatch_request,
            (dispatching, tunnel_id, request_id, message),
            Ok::<oneshot::Receiver<ForwardResponse>, DispatchError>(waiting),
        ),
        *old(answering) == *final(dispatching),
        response.request_id@ == request_id@,
        call_ensures(TunnelManager::resolve_response, (answering, response), resolved),
        *old(again) == *final(answering),
        second.request_id@ == request_id@,
        call_ensures(TunnelManager::resolve_response, (again, second), second_resolved),
    ensures
        channel::one_channel(reply, waiting),
        channel::answered_on(reply, response, resolved),
        !second_resolved,
{
    old(answering)@.pending[request_id@]
}

} // verus!
