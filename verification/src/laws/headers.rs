//! Laws on headers: which of them come through, under which name, with which value.
use crate::headers;
use crate::headers::{
    answered_headers, fits_header_map, forwarded_headers, forwarded_list, headers_to_protocol,
    host_from_headers, read_value, RawHeader,
};
use crate::protocol;
use crate::protocol::Header;
use crate::text;
use axum::http::{HeaderMap, HeaderValue};
use vstd::prelude::*;

verus! {

/// The places below `n` that are wanted, all of them, in order.
pub open spec fn picked(n: int, wanted: spec_fn(int) -> bool, places: Seq<int>) -> bool {
    &&& forall|i: int, j: int|
        0 <= i < j < places.len() ==> (#[trigger] places[i]) < (#[trigger] places[j])
    &&& forall|i: int|
        0 <= i < places.len() ==> 0 <= #[trigger] places[i] < n && wanted(places[i])
    &&& forall|k: int| 0 <= k < n && #[trigger] wanted(k) ==> places.contains(k)
}

pub(crate) proof fn lemma_pick_next(n: int, wanted: spec_fn(int) -> bool, places: Seq<int>)
    requires
        n >= 0,
        picked(n, wanted, places),
    ensures
        wanted(n) ==> picked(n + 1, wanted, places.push(n)),
        !wanted(n) ==> picked(n + 1, wanted, places),
{
    let more = places.push(n);
    assert(more[places.len() as int] == n);
    assert forall|k: int| 0 <= k < n && #[trigger] wanted(k) implies more.contains(k) by {
        let i = choose|i: int| 0 <= i < places.len() && places[i] == k;
        assert(more[i] == k);
    }
}

pub(crate) proof fn lemma_pick_same(
    n: int,
    wanted: spec_fn(int) -> bool,
    other: spec_fn(int) -> bool,
    places: Seq<int>,
)
    requires
        picked(n, wanted, places),
        forall|k: int| 0 <= k < n ==> #[trigger] other(k) == wanted(k),
    ensures
        picked(n, other, places),
{
    assert forall|i: int| 0 <= i < places.len() implies other(#[trigger] places[i]) by {
        assert(wanted(places[i]));
    }
}

/// A header value that is text: visible ASCII characters, spaces and tabs.
pub open spec fn is_text(value: Seq<u8>) -> bool {
    forall|b: int| 0 <= b < value.len() ==> 32 <= #[trigger] value[b] < 127 || value[b] == 9
}

/// The characters with the numbers of these bytes.
pub open spec fn text_in(value: Seq<u8>) -> Seq<char> {
    Seq::new(value.len(), |b: int| value[b] as char)
}

proof fn lemma_text(value: Seq<u8>)
    ensures
        headers::readable(value) == is_text(value),
        headers::value_text(value) == text_in(value),
{
    if is_text(value) {
        assert forall|b: int| 0 <= b < value.len() implies headers::is_visible(
            #[trigger] value[b],
        ) by {}
    }
    if headers::readable(value) {
        assert forall|b: int| 0 <= b < value.len() implies 32 <= #[trigger] value[b] < 127
            || value[b] == 9 by {
            assert(headers::is_visible(value[b]));
        }
    }
    assert(headers::value_text(value) =~= text_in(value));
}

/// A header value is read where all its bytes are visible ASCII characters, spaces and tabs, and it
/// is read as the characters with their numbers.
pub proof fn value_is_read_byte_by_byte(value: &Vec<u8>, read: Option<String>)
    requires
        call_ensures(read_value, (value,), read),
    ensures
        read is Some <==> forall|b: int|
            0 <= b < value@.len() ==> 32 <= #[trigger] value@[b] < 127 || value@[b] == 9,
        read matches Some(read) ==> {
            &&& read@.len() == value@.len()
            &&& forall|b: int| 0 <= b < value@.len() ==> #[trigger] read@[b] == value@[b] as char
        },
{
    lemma_text(value@);
}

proof fn lemma_carried(entries: Seq<(Seq<char>, Seq<u8>)>) -> (places: Seq<int>)
    ensures
        picked(entries.len() as int, |k: int| is_text(entries[k].1), places),
        headers::carried(entries).len() == places.len(),
        forall|i: int|
            0 <= i < places.len() ==> {
                let header = #[trigger] headers::carried(entries)[i];
                &&& header.name == entries[places[i]].0
                &&& header.value == text_in(entries[places[i]].1)
            },
    decreases entries.len(),
{
    let wanted = |k: int| is_text(entries[k].1);
    if entries.len() == 0 {
        Seq::empty()
    } else {
        let init = entries.drop_last();
        let n = init.len() as int;
        let before = lemma_carried(init);
        lemma_pick_same(n, |k: int| is_text(init[k].1), wanted, before);
        lemma_pick_next(n, wanted, before);
        lemma_text(entries.last().1);
        if is_text(entries.last().1) {
            before.push(n)
        } else {
            before
        }
    }
}

/// A header that is handed on: its value is text, and it is neither `host` nor `connection`.
pub open spec fn is_handed_on(entry: (Seq<char>, Seq<u8>)) -> bool {
    is_text(entry.1) && entry.0 != "host"@ && entry.0 != "connection"@
}

proof fn lemma_handed_on(entries: Seq<(Seq<char>, Seq<u8>)>) -> (places: Seq<int>)
    ensures
        picked(entries.len() as int, |k: int| is_handed_on(entries[k]), places),
        headers::handed_on(headers::carried(entries)).len() == places.len(),
        forall|i: int|
            0 <= i < places.len() ==> {
                let header = #[trigger] headers::handed_on(headers::carried(entries))[i];
                &&& header.name == entries[places[i]].0
                &&& header.value == text_in(entries[places[i]].1)
            },
    decreases entries.len(),
{
    let wanted = |k: int| is_handed_on(entries[k]);
    if entries.len() == 0 {
        Seq::empty()
    } else {
        let init = entries.drop_last();
        let last = entries.last();
        let n = init.len() as int;
        let before = lemma_handed_on(init);
        lemma_pick_same(n, |k: int| is_handed_on(init[k]), wanted, before);
        lemma_pick_next(n, wanted, before);
        lemma_text(last.1);
        if is_text(last.1) {
            let header = protocol::HeaderView { name: last.0, value: text_in(last.1) };
            assert(headers::carried(init).push(header).drop_last() =~= headers::carried(init));
        }
        if wanted(n) {
            before.push(n)
        } else {
            before
        }
    }
}

proof fn lemma_views(list: Seq<Header>)
    ensures
        protocol::headers_view(list).len() == list.len(),
        forall|i: int|
            0 <= i < list.len() ==> {
                &&& (#[trigger] list[i]).name@ == protocol::headers_view(list)[i].name
                &&& list[i].value@ == protocol::headers_view(list)[i].value
            },
{
}

pub(crate) proof fn lemma_carried_list(
    entries: Seq<(Seq<char>, Seq<u8>)>,
    list: Seq<Header>,
) -> (places: Seq<int>)
    requires
        protocol::headers_view(list) == headers::carried(entries),
    ensures
        picked(entries.len() as int, |k: int| is_text(entries[k].1), places),
        list.len() == places.len(),
        forall|i: int|
            0 <= i < places.len() ==> {
                &&& (#[trigger] list[i]).name@ == entries[places[i]].0
                &&& list[i].value@ == text_in(entries[places[i]].1)
            },
{
    let places = lemma_carried(entries);
    lemma_views(list);
    assert forall|i: int| 0 <= i < places.len() implies {
        &&& (#[trigger] list[i]).name@ == entries[places[i]].0
        &&& list[i].value@ == text_in(entries[places[i]].1)
    } by {
        assert(headers::carried(entries)[i].name == entries[places[i]].0);
    }
    places
}

pub(crate) proof fn lemma_text_header_is_in(
    entries: Seq<(Seq<char>, Seq<u8>)>,
    list: Seq<Header>,
    k: int,
) -> (i: int)
    requires
        protocol::headers_view(list) == headers::carried(entries),
        0 <= k < entries.len(),
        is_text(entries[k].1),
    ensures
        0 <= i < list.len(),
        list[i].name@ == entries[k].0,
        list[i].value@ == text_in(entries[k].1),
{
    let places = lemma_carried_list(entries, list);
    let wanted = |k: int| is_text(entries[k].1);
    assert(wanted(k));
    assert(places.contains(k));
    let i = choose|i: int| 0 <= i < places.len() && places[i] == k;
    assert(list[i].name@ == entries[places[i]].0);
    i
}

/// Every header whose value is text is carried, under its name and with the characters of its
/// value.
pub proof fn text_header_is_carried(given: &Vec<RawHeader>, list: Vec<Header>, k: int) -> (i: int)
    requires
        call_ensures(headers_to_protocol, (given,), list),
        0 <= k < given@.len(),
        forall|b: int|
            0 <= b < given@[k].value@.len() ==> 32 <= #[trigger] given@[k].value@[b] < 127
                || given@[k].value@[b] == 9,
    ensures
        0 <= i < list@.len(),
        list@[i].name@ == given@[k].name@,
        list@[i].value@.len() == given@[k].value@.len(),
        forall|b: int|
            0 <= b < given@[k].value@.len() ==> #[trigger] list@[i].value@[b]
                == given@[k].value@[b] as char,
{
    lemma_text_header_is_in(headers::raw_view(given@), list@, k)
}

/// Of a list of headers, exactly those whose value is text are carried, each once, in order: the
/// header at `i` comes from the one at `places[i]`.
pub proof fn text_headers_alone_are_carried(given: &Vec<RawHeader>, list: Vec<Header>) -> (places:
    Seq<int>)
    requires
        call_ensures(headers_to_protocol, (given,), list),
    ensures
        places.len() == list@.len(),
        forall|i: int, j: int|
            0 <= i < j < places.len() ==> (#[trigger] places[i]) < (#[trigger] places[j]),
        forall|i: int|
            0 <= i < places.len() ==> {
                &&& 0 <= #[trigger] places[i] < given@.len()
                &&& is_text(given@[places[i]].value@)
                &&& list@[i].name@ == given@[places[i]].name@
                &&& list@[i].value@ == text_in(given@[places[i]].value@)
            },
        forall|k: int|
            0 <= k < given@.len() && is_text((#[trigger] given@[k]).value@) ==> places.contains(k),
{
    let entries = headers::raw_view(given@);
    let wanted = |k: int| is_text(entries[k].1);
    let places = lemma_carried_list(entries, list@);
    assert forall|i: int| 0 <= i < places.len() implies {
        &&& 0 <= #[trigger] places[i] < given@.len()
        &&& is_text(given@[places[i]].value@)
        &&& list@[i].name@ == given@[places[i]].name@
        &&& list@[i].value@ == text_in(given@[places[i]].value@)
    } by {
        assert(wanted(places[i]));
        assert(list@[i].name@ == entries[places[i]].0);
    }
    assert forall|k: int| 0 <= k < given@.len() && is_text(
        (#[trigger] given@[k]).value@,
    ) implies places.contains(k) by {
        assert(wanted(k));
    }
    places
}

/// A header of a local answer whose value is text is handed back, under its name and with the
/// characters of its value.
pub proof fn text_header_is_handed_back(
    given: &HeaderMap<HeaderValue>,
    list: Vec<Header>,
    k: int,
) -> (i: int)
    requires
        call_ensures(answered_headers, (given,), list),
        0 <= k < headers::header_entries(*given).len(),
        is_text(headers::header_entries(*given)[k].1),
    ensures
        0 <= i < list@.len(),
        list@[i].name@ == headers::header_entries(*given)[k].0,
        list@[i].value@ == text_in(headers::header_entries(*given)[k].1),
{
    lemma_text_header_is_in(headers::header_entries(*given), list@, k)
}

pub(crate) proof fn lemma_forwarded_list(
    entries: Seq<(Seq<char>, Seq<u8>)>,
    host: Seq<char>,
    list: Seq<Header>,
) -> (places: Seq<int>)
    requires
        protocol::headers_view(list) == headers::forwarded(entries, host),
    ensures
        picked(entries.len() as int, |k: int| is_handed_on(entries[k]), places),
        list.len() == places.len() + 3,
        forall|i: int|
            0 <= i < places.len() ==> {
                &&& (#[trigger] list[i]).name@ == entries[places[i]].0
                &&& list[i].value@ == text_in(entries[places[i]].1)
            },
        list[list.len() - 3].name@ == "x-forwarded-host"@,
        list[list.len() - 3].value@ == host,
        list[list.len() - 2].name@ == "x-forwarded-proto"@,
        list[list.len() - 2].value@ == "http"@,
        list[list.len() - 1].name@ == "x-forwarded-for"@,
        list[list.len() - 1].value@ == "127.0.0.1"@,
{
    let kept = headers::handed_on(headers::carried(entries));
    let all = headers::forwarded(entries, host);
    let places = lemma_handed_on(entries);
    let n = places.len() as int;
    lemma_views(list);
    assert forall|i: int| 0 <= i < n implies {
        &&& (#[trigger] list[i]).name@ == entries[places[i]].0
        &&& list[i].value@ == text_in(entries[places[i]].1)
    } by {
        assert(all[i] == kept[i]);
    }
    assert(all[n] == headers::origin_headers(host)[0]);
    assert(all[n + 1] == headers::origin_headers(host)[1]);
    assert(all[n + 2] == headers::origin_headers(host)[2]);
    assert(list[n].name@ == all[n].name);
    assert(list[n + 1].name@ == all[n + 1].name);
    assert(list[n + 2].name@ == all[n + 2].name);
    places
}

pub(crate) proof fn lemma_forwarded_header_is_in(
    entries: Seq<(Seq<char>, Seq<u8>)>,
    host: Seq<char>,
    list: Seq<Header>,
    k: int,
) -> (i: int)
    requires
        protocol::headers_view(list) == headers::forwarded(entries, host),
        0 <= k < entries.len(),
        is_handed_on(entries[k]),
    ensures
        0 <= i < list.len() - 3,
        list[i].name@ == entries[k].0,
        list[i].value@ == text_in(entries[k].1),
{
    let places = lemma_forwarded_list(entries, host, list);
    let wanted = |k: int| is_handed_on(entries[k]);
    assert(wanted(k));
    assert(places.contains(k));
    let i = choose|i: int| 0 <= i < places.len() && places[i] == k;
    assert(list[i].name@ == entries[places[i]].0);
    i
}

/// Every header of a public request whose value is text is forwarded, under its name and with the
/// characters of its value, unless it is `host` or `connection`.
pub proof fn text_header_is_forwarded(
    given: &HeaderMap<HeaderValue>,
    host: &str,
    list: Vec<Header>,
    k: int,
) -> (i: int)
    requires
        call_ensures(forwarded_headers, (given, host), list),
        0 <= k < headers::header_entries(*given).len(),
        headers::header_entries(*given)[k].0 != "host"@,
        headers::header_entries(*given)[k].0 != "connection"@,
        is_text(headers::header_entries(*given)[k].1),
    ensures
        0 <= i < list@.len() - 3,
        list@[i].name@ == headers::header_entries(*given)[k].0,
        list@[i].value@ == text_in(headers::header_entries(*given)[k].1),
{
    lemma_forwarded_header_is_in(headers::header_entries(*given), host@, list@, k)
}

/// Of the headers of a public request, exactly those whose value is text and that are neither
/// `host` nor `connection` are forwarded, each once, in order: the header at `i` comes from the one
/// at `places[i]`. Three more stand behind them.
pub proof fn text_headers_alone_are_forwarded(
    given: &HeaderMap<HeaderValue>,
    host: &str,
    list: Vec<Header>,
) -> (places: Seq<int>)
    requires
        call_ensures(forwarded_headers, (given, host), list),
    ensures
        ({
            let entries = headers::header_entries(*given);
            &&& list@.len() == places.len() + 3
            &&& forall|i: int, j: int|
                0 <= i < j < places.len() ==> (#[trigger] places[i]) < (#[trigger] places[j])
            &&& forall|i: int|
                0 <= i < places.len() ==> {
                    let entry = entries[places[i]];
                    &&& 0 <= #[trigger] places[i] < entries.len()
                    &&& is_text(entry.1) && entry.0 != "host"@ && entry.0 != "connection"@
                    &&& list@[i].name@ == entry.0
                    &&& list@[i].value@ == text_in(entry.1)
                }
            &&& forall|k: int|
                0 <= k < entries.len() && is_text((#[trigger] entries[k]).1) && entries[k].0
                    != "host"@ && entries[k].0 != "connection"@ ==> places.contains(k)
        }),
{
    let entries = headers::header_entries(*given);
    let wanted = |k: int| is_handed_on(entries[k]);
    let places = lemma_forwarded_list(entries, host@, list@);
    assert forall|i: int| 0 <= i < places.len() implies {
        let entry = entries[places[i]];
        &&& 0 <= #[trigger] places[i] < entries.len()
        &&& is_text(entry.1) && entry.0 != "host"@ && entry.0 != "connection"@
        &&& list@[i].name@ == entry.0
        &&& list@[i].value@ == text_in(entry.1)
    } by {
        assert(wanted(places[i]));
        assert(list@[i].name@ == entries[places[i]].0);
    }
    assert forall|k: int| 0 <= k < entries.len() && is_text((#[trigger] entries[k]).1)
        && entries[k].0 != "host"@ && entries[k].0 != "connection"@ implies places.contains(k) by {
        assert(wanted(k));
    }
    places
}

/// Behind the headers of the request stand the host that it was sent to, the scheme and the address
/// that it is said to come from.
pub proof fn forwarded_headers_tell_the_origin(
    given: &HeaderMap<HeaderValue>,
    host: &str,
    list: Vec<Header>,
)
    requires
        call_ensures(forwarded_headers, (given, host), list),
    ensures
        list@.len() >= 3,
        list@[list@.len() - 3].name@ == "x-forwarded-host"@,
        list@[list@.len() - 3].value@ == host@,
        list@[list@.len() - 2].name@ == "x-forwarded-proto"@,
        list@[list@.len() - 2].value@ == "http"@,
        list@[list@.len() - 1].name@ == "x-forwarded-for"@,
        list@[list@.len() - 1].value@ == "127.0.0.1"@,
{
    let places = lemma_forwarded_list(headers::header_entries(*given), host@, list@);
}

/// A list of headers is forwarded as a header map with the same entries is.
pub proof fn list_is_forwarded_as_a_map_is(
    given: &Vec<RawHeader>,
    map: &HeaderMap<HeaderValue>,
    host: &str,
    list: Vec<Header>,
    other: Vec<Header>,
)
    requires
        given@.len() == headers::header_entries(*map).len(),
        forall|k: int|
            0 <= k < given@.len() ==> {
                &&& (#[trigger] given@[k]).name@ == headers::header_entries(*map)[k].0
                &&& given@[k].value@ == headers::header_entries(*map)[k].1
            },
        call_ensures(forwarded_list, (given, host), list),
        call_ensures(forwarded_headers, (map, host), other),
    ensures
        list@.len() == other@.len(),
        forall|i: int|
            0 <= i < list@.len() ==> {
                &&& (#[trigger] list@[i]).name@ == other@[i].name@
                &&& list@[i].value@ == other@[i].value@
            },
{
    let entries = headers::raw_view(given@);
    assert forall|k: int| 0 <= k < entries.len() implies entries[k] == headers::header_entries(
        *map,
    )[k] by {
        assert(entries[k] == (given@[k].name@, given@[k].value@));
    }
    assert(entries =~= headers::header_entries(*map));
    lemma_views(list@);
    lemma_views(other@);
    assert forall|i: int| 0 <= i < list@.len() implies {
        &&& (#[trigger] list@[i]).name@ == other@[i].name@
        &&& list@[i].value@ == other@[i].value@
    } by {
        assert(other@[i].name@ == protocol::headers_view(other@)[i].name);
    }
}

proof fn lemma_first_value(entries: Seq<(Seq<char>, Seq<u8>)>, name: Seq<char>, at: int)
    requires
        0 <= at <= entries.len(),
        at < entries.len() ==> entries[at].0 == name,
        forall|k: int| 0 <= k < at ==> (#[trigger] entries[k]).0 != name,
    ensures
        headers::first_value(entries, name) == (if at < entries.len() {
            Some(entries[at].1)
        } else {
            None
        }),
    decreases entries.len(),
{
    if at > 0 {
        assert(entries[0].0 != name);
        let rest = entries.skip(1);
        assert forall|k: int| 0 <= k < at - 1 implies (#[trigger] rest[k]).0 != name by {
            assert(entries[k + 1].0 != name);
        }
        lemma_first_value(rest, name, at - 1);
    }
}

/// A public request names the host in the first of its headers that is called `host`, where the
/// value of that one is text; where it is not, or where there is no such header, it names none.
pub proof fn first_host_header_names_the_host(
    given: &HeaderMap<HeaderValue>,
    at: int,
    host: Option<String>,
)
    requires
        call_ensures(host_from_headers, (given,), host),
        0 <= at <= headers::header_entries(*given).len(),
        at < headers::header_entries(*given).len() ==> headers::header_entries(*given)[at].0
            == "host"@,
        forall|k: int|
            0 <= k < at ==> (#[trigger] headers::header_entries(*given)[k]).0 != "host"@,
    ensures
        ({
            let entries = headers::header_entries(*given);
            if at < entries.len() && is_text(entries[at].1) {
                host is Some && host->Some_0@ == text_in(entries[at].1)
            } else {
                host is None
            }
        }),
{
    let entries = headers::header_entries(*given);
    lemma_first_value(entries, "host"@, at);
    if at < entries.len() {
        lemma_text(entries[at].1);
    }
}

/// A header map takes up to 6554 headers, whatever they are; where more than 24576 headers have
/// names that differ from one another, it does not take them all.
pub proof fn header_map_has_its_limits(given: &Vec<Header>, taken: bool)
    requires
        call_ensures(fits_header_map, (given,), taken),
    ensures
        given@.len() <= 6554 ==> taken,
        given@.len() > 24576 && (forall|i: int, j: int|
            0 <= i < j < given@.len() ==> text::ascii_lower((#[trigger] given@[i]).name@)
                != text::ascii_lower((#[trigger] given@[j]).name@)) ==> !taken,
{
    if given@.len() > 24576 && (forall|i: int, j: int|
        0 <= i < j < given@.len() ==> text::ascii_lower((#[trigger] given@[i]).name@)
            != text::ascii_lower((#[trigger] given@[j]).name@)) {
        let views = protocol::headers_view(given@).drop_last();
        let names = views.map_values(
            |header: protocol::HeaderView| text::ascii_lower(header.name),
        );
        assert forall|i: int, j: int| 0 <= i < names.len() && 0 <= j < names.len() && i != j
            implies names[i] != names[j] by {
            assert(names[i] == text::ascii_lower(given@[i].name@));
            assert(names[j] == text::ascii_lower(given@[j].name@));
        }
        names.unique_seq_to_set();
        assert(headers::crowded(protocol::headers_view(given@)));
    }
}

} // verus!
