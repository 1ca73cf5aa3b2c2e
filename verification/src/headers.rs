//! HTTP headers on their way into and out of the control protocol.
use crate::http_rules;
use crate::protocol;
use crate::protocol::Header;
use crate::text;
use crate::text::same_text;
use axum::http::{HeaderMap, HeaderName, HeaderValue};
use vstd::prelude::*;

verus! {

/// A header map takes this many headers, whatever their names.
pub const SURE_HEADERS: usize = 6554;

/// A header map that holds this many names takes no more headers.
pub const MOST_NAMES: usize = 24576;

/// A header as it came over the wire: its name in lower case, and the bytes of its value.
#[derive(Debug, Clone, PartialEq, Eq)]
pub struct RawHeader {
    pub name: String,
    pub value: Vec<u8>,
}

impl View for RawHeader {
    type V = (Seq<char>, Seq<u8>);

    open spec fn view(&self) -> (Seq<char>, Seq<u8>) {
        (self.name@, self.value@)
    }
}

/// What a list of raw headers says, in order: each name with the bytes of its value.
pub open spec fn raw_view(headers: Seq<RawHeader>) -> Seq<(Seq<char>, Seq<u8>)> {
    headers.map_values(|h: RawHeader| h@)
}

/// The header map of the http crate, carried through unseen.
#[verifier::external_type_specification]
#[verifier::external_body]
#[verifier::reject_recursive_types(T)]
pub struct ExHeaderMap<T>(HeaderMap<T>);

/// The header value of the http crate, carried through unseen.
#[verifier::external_type_specification]
#[verifier::external_body]
pub struct ExHeaderValue(HeaderValue);

/// What a header map holds: each of its values with the value's name, in the order in which
/// `HeaderMap::iter` hands them out.
pub uninterp spec fn header_entries(headers: HeaderMap<HeaderValue>) -> Seq<(Seq<char>, Seq<u8>)>;

/// Calls `HeaderMap::iter`, which hands out every value of the map with its name, and copies
/// each. A name is in lower case.
#[verifier::external_body]
fn list_headers(headers: &HeaderMap<HeaderValue>) -> (list: Vec<RawHeader>)
    ensures
        raw_view(list@) == header_entries(*headers),
{
    headers
        .iter()
        .map(|(name, value)| RawHeader {
            name: name.as_str().to_string(),
            value: value.as_bytes().to_vec(),
        })
        .collect()
}

/// Calls `HeaderMap::get`, and copies the value. It returns the first value under the name, in
/// whatever case the name is given; the names in the map are in lower case. `HeaderMap::iter`
/// hands out that value before the others of the same name.
#[verifier::external_body]
fn get_header(headers: &HeaderMap<HeaderValue>, name: &str) -> (value: Option<Vec<u8>>)
    ensures
        bytes_of(value) == first_value(header_entries(*headers), text::ascii_lower(name@)),
{
    headers.get(name).map(|value| value.as_bytes().to_vec())
}

/// Calls `HeaderMap::new`, which makes a map that holds nothing.
#[verifier::external_body]
fn new_header_map() -> (map: HeaderMap<HeaderValue>)
    ensures
        header_entries(map) == Seq::<(Seq<char>, Seq<u8>)>::empty(),
{
    HeaderMap::new()
}

/// Calls `HeaderMap::try_append` with the name and the value of a header, and tells whether the
/// map took it. A value that is taken comes after the others of its name, and after everything
/// where it is the first. A value that is not taken leaves the map as it was.
///
/// The index of the map has at most 32768 places, and the map refuses a value where it would
/// have to grow beyond that. It grows where its names fill three quarters of the index, and it may
/// grow earlier, when its names collide badly, where they fill a fifth of it. So the map takes a
/// value where it holds fewer than 6554, and refuses one where it holds 24576 names. In between it
/// depends on the names.
#[verifier::external_body]
fn append_header(map: HeaderMap<HeaderValue>, header: &Header) -> (appended: (
    HeaderMap<HeaderValue>,
    bool,
))
    requires
        http_rules::valid_header_name(header.name@),
        http_rules::valid_header_value(header.value@),
    ensures
        appended.1 ==> header_entries(appended.0) == with_entry(
            header_entries(map),
            text::ascii_lower(header.name@),
            vstd::utf8::encode_utf8(header.value@),
        ),
        !appended.1 ==> header_entries(appended.0) == header_entries(map),
        header_entries(map).len() < SURE_HEADERS ==> appended.1,
        entry_names(header_entries(map)).len() >= MOST_NAMES ==> !appended.1,
{
    let mut map = map;
    let name = HeaderName::from_bytes(header.name.as_bytes()).expect("valid header name");
    let value = HeaderValue::from_str(&header.value).expect("valid header value");
    let taken = map.try_append(name, value).is_ok();
    (map, taken)
}

/// The names in a header map.
pub open spec fn entry_names(entries: Seq<(Seq<char>, Seq<u8>)>) -> Set<Seq<char>> {
    entries.map_values(|entry: (Seq<char>, Seq<u8>)| entry.0).to_set()
}

/// The entries with one more: behind the last of the same name, or else behind them all.
pub open spec fn with_entry(
    entries: Seq<(Seq<char>, Seq<u8>)>,
    name: Seq<char>,
    value: Seq<u8>,
) -> Seq<(Seq<char>, Seq<u8>)>
    decreases entries.len(),
{
    if entries.len() == 0 || entries.last().0 == name || !entry_names(entries).contains(name) {
        entries.push((name, value))
    } else {
        with_entry(entries.drop_last(), name, value).push(entries.last())
    }
}

/// The names of some headers, in lower case.
pub open spec fn header_names(headers: Seq<protocol::HeaderView>) -> Set<Seq<char>> {
    headers.map_values(|header: protocol::HeaderView| text::ascii_lower(header.name)).to_set()
}

/// A header map that has taken all headers so far, or not, and is given one more if it has, is
/// `map` then, and has taken them all or not.
pub closed spec fn next_map(
    before: HeaderMap<HeaderValue>,
    so_far: bool,
    header: Header,
    map: HeaderMap<HeaderValue>,
    taken: bool,
) -> bool {
    if so_far {
        call_ensures(append_header, (before, &header), (map, taken))
    } else {
        map == before && !taken
    }
}

/// A new header map that is given these headers, in order, until it refuses one, is `map` in the
/// end, and has taken them all or not.
pub closed spec fn map_filled(
    headers: Seq<Header>,
    map: HeaderMap<HeaderValue>,
    taken: bool,
) -> bool
    decreases headers.len(),
{
    if headers.len() == 0 {
        call_ensures(new_header_map, (), map) && taken
    } else {
        exists|before: HeaderMap<HeaderValue>, so_far: bool|
            map_filled(headers.drop_last(), before, so_far) && #[trigger] next_map(
                before,
                so_far,
                headers.last(),
                map,
                taken,
            )
    }
}

/// The bytes of an optional vector.
pub open spec fn bytes_of(value: Option<Vec<u8>>) -> Option<Seq<u8>> {
    match value {
        Some(value) => Some(value@),
        None => None,
    }
}

/// The first value under a name.
pub open spec fn first_value(headers: Seq<(Seq<char>, Seq<u8>)>, name: Seq<char>) -> Option<Seq<u8>>
    decreases headers.len(),
{
    if headers.len() == 0 {
        None
    } else if headers[0].0 == name {
        Some(headers[0].1)
    } else {
        first_value(headers.skip(1), name)
    }
}

/// The bytes that are visible ASCII characters, the space and the tab.
pub open spec fn is_visible(byte: u8) -> bool {
    32 <= byte < 127 || byte == 9
}

/// A header value that is text.
pub open spec fn readable(value: Seq<u8>) -> bool {
    forall|i: int| 0 <= i < value.len() ==> is_visible(#[trigger] value[i])
}

/// The text of a readable header value.
pub open spec fn value_text(value: Seq<u8>) -> Seq<char> {
    value.map_values(|byte: u8| byte as char)
}

/// The headers that the control protocol can carry: those whose value is readable, in order.
pub open spec fn carried(headers: Seq<(Seq<char>, Seq<u8>)>) -> Seq<protocol::HeaderView>
    decreases headers.len(),
{
    if headers.len() == 0 {
        Seq::empty()
    } else {
        let before = carried(headers.drop_last());
        let last = headers.last();
        if readable(last.1) {
            before.push(protocol::HeaderView { name: last.0, value: value_text(last.1) })
        } else {
            before
        }
    }
}

/// The headers that concern one connection alone, and are not handed on.
pub open spec fn is_hop_header(name: Seq<char>) -> bool {
    name == "host"@ || name == "connection"@
}

/// The headers that tell the local service where a request came in.
pub open spec fn origin_headers(host: Seq<char>) -> Seq<protocol::HeaderView> {
    seq![
        protocol::HeaderView { name: "x-forwarded-host"@, value: host },
        protocol::HeaderView { name: "x-forwarded-proto"@, value: "http"@ },
        protocol::HeaderView { name: "x-forwarded-for"@, value: "127.0.0.1"@ },
    ]
}

/// The headers that are not hop headers, in order.
pub open spec fn handed_on(headers: Seq<protocol::HeaderView>) -> Seq<protocol::HeaderView>
    decreases headers.len(),
{
    if headers.len() == 0 {
        Seq::empty()
    } else if is_hop_header(headers.last().name) {
        handed_on(headers.drop_last())
    } else {
        handed_on(headers.drop_last()).push(headers.last())
    }
}

/// The headers of a forwarded request.
pub open spec fn forwarded(headers: Seq<(Seq<char>, Seq<u8>)>, host: Seq<char>) -> Seq<
    protocol::HeaderView,
> {
    handed_on(carried(headers)) + origin_headers(host)
}

/// The host that the headers name: the first value under `host`, where there is one and it is
/// readable.
pub open spec fn named_host(headers: Seq<(Seq<char>, Seq<u8>)>) -> Option<Seq<char>> {
    match first_value(headers, "host"@) {
        Some(value) if readable(value) => Some(value_text(value)),
        _ => None,
    }
}

/// The text of a header value, where it is readable.
pub fn read_value(value: &Vec<u8>) -> (text: Option<String>)
    ensures
        text is Some == readable(value@),
        text matches Some(text) ==> text@ == value_text(value@),
{
    let mut text: String = String::new();
    let mut i: usize = 0;
    while i < value.len()
        invariant
            i <= value.len(),
            forall|j: int| 0 <= j < i ==> is_visible(#[trigger] value@[j]),
            text@ == value_text(value@.take(i as int)),
        decreases value.len() - i,
    {
        let byte: u8 = value[i];
        if !((32 <= byte && byte < 127) || byte == 9) {
            assert(!is_visible(value@[i as int]));
            return None;
        }
        text.push(byte as char);
        assert(value@.take(i + 1) == value@.take(i as int).push(byte));
        i = i + 1;
    }
    assert(value@.take(value@.len() as int) == value@);
    Some(text)
}

/// Computes [`carried`].
pub fn headers_to_protocol(headers: &Vec<RawHeader>) -> (list: Vec<Header>)
    ensures
        protocol::headers_view(list@) == carried(raw_view(headers@)),
{
    let mut list: Vec<Header> = Vec::new();
    let ghost raw = raw_view(headers@);
    let mut i: usize = 0;
    assert(protocol::headers_view(list@) =~= carried(raw.take(0)));
    while i < headers.len()
        invariant
            raw == raw_view(headers@),
            i <= headers.len(),
            protocol::headers_view(list@) == carried(raw.take(i as int)),
        decreases headers.len() - i,
    {
        assert(raw.take(i + 1).drop_last() == raw.take(i as int));
        assert(raw.take(i + 1).last() == headers@[i as int]@);
        let ghost before = list@;
        if let Some(value) = read_value(&headers[i].value) {
            let header = Header { name: headers[i].name.clone(), value };
            list.push(header);
            assert(protocol::headers_view(list@) =~= protocol::headers_view(before).push(header@));
        }
        i = i + 1;
    }
    assert(raw.take(raw.len() as int) == raw);
    list
}

fn header(name: &str, value: &str) -> (header: Header)
    ensures
        header@ == (protocol::HeaderView { name: name@, value: value@ }),
{
    Header { name: name.to_owned(), value: value.to_owned() }
}

/// Computes [`forwarded`] from a list of headers.
pub fn forwarded_list(headers: &Vec<RawHeader>, host: &str) -> (list: Vec<Header>)
    ensures
        protocol::headers_view(list@) == forwarded(raw_view(headers@), host@),
{
    let all = headers_to_protocol(headers);
    let ghost views = protocol::headers_view(all@);
    let mut list: Vec<Header> = Vec::new();
    let mut i: usize = 0;
    assert(protocol::headers_view(list@) =~= handed_on(views.take(0)));
    while i < all.len()
        invariant
            views == protocol::headers_view(all@),
            i <= all.len(),
            protocol::headers_view(list@) == handed_on(views.take(i as int)),
        decreases all.len() - i,
    {
        assert(views.take(i + 1).drop_last() == views.take(i as int));
        assert(views.take(i + 1).last() == all@[i as int]@);
        let ghost before = list@;
        let name = all[i].name.as_str();
        if !same_text(name, "host") && !same_text(name, "connection") {
            let kept = header(name, all[i].value.as_str());
            list.push(kept);
            assert(protocol::headers_view(list@) =~= protocol::headers_view(before).push(kept@));
        }
        i = i + 1;
    }
    assert(views.take(views.len() as int) == views);
    list.push(header("x-forwarded-host", host));
    list.push(header("x-forwarded-proto", "http"));
    list.push(header("x-forwarded-for", "127.0.0.1"));
    assert(protocol::headers_view(list@) =~= handed_on(views) + origin_headers(host@));
    list
}

/// The headers with which a public request with these headers, sent to this host, is forwarded.
pub fn forwarded_headers(headers: &HeaderMap<HeaderValue>, host: &str) -> (list: Vec<Header>)
    ensures
        protocol::headers_view(list@) == forwarded(header_entries(*headers), host@),
{
    forwarded_list(&list_headers(headers), host)
}

/// Tells whether a header map takes these headers.
pub fn fits_header_map(headers: &Vec<Header>) -> (taken: bool)
    requires
        forall|i: int|
            0 <= i < headers@.len() ==> {
                &&& http_rules::valid_header_name((#[trigger] headers@[i]).name@)
                &&& http_rules::valid_header_value(headers@[i].value@)
            },
    ensures
        exists|map: HeaderMap<HeaderValue>| map_filled(headers@, map, taken),
        headers@.len() <= SURE_HEADERS ==> taken,
        crowded(protocol::headers_view(headers@)) ==> !taken,
{
    let mut map = new_header_map();
    let mut taken = true;
    let mut i: usize = 0;
    assert(headers@.take(0) =~= Seq::empty());
    assert(map_filled(headers@.take(0), map, taken));
    while i < headers.len()
        invariant
            forall|i: int|
                0 <= i < headers@.len() ==> {
                    &&& http_rules::valid_header_name((#[trigger] headers@[i]).name@)
                    &&& http_rules::valid_header_value(headers@[i].value@)
                },
            i <= headers.len(),
            map_filled(headers@.take(i as int), map, taken),
        decreases headers.len() - i,
    {
        assert(headers@.take(i + 1).drop_last() =~= headers@.take(i as int));
        assert(headers@.take(i + 1).last() == headers@[i as int]);
        let ghost before = map;
        let ghost so_far = taken;
        if taken {
            let appended = append_header(map, &headers[i]);
            map = appended.0;
            taken = appended.1;
        }
        assert(next_map(before, so_far, headers@[i as int], map, taken));
        assert(map_filled(headers@.take(i + 1), map, taken));
        i = i + 1;
    }
    assert(headers@.take(headers@.len() as int) =~= headers@);
    proof {
        lemma_map_filled(headers@, map, taken);
    }
    taken
}

/// A header map is filled by one call after the other: a new map is given the first header, what
/// came out of that the second, and so on, until a header is refused.
proof fn map_is_filled_header_by_header(
    headers: Seq<Header>,
    map: HeaderMap<HeaderValue>,
    taken: bool,
) -> (last: (HeaderMap<HeaderValue>, bool))
    requires
        map_filled(headers, map, taken),
    ensures
        headers.len() == 0 ==> taken && call_ensures(new_header_map, (), map),
        headers.len() > 0 ==> {
            &&& map_filled(headers.drop_last(), last.0, last.1)
            &&& last.1 ==> call_ensures(append_header, (last.0, &headers.last()), (map, taken))
            &&& !last.1 ==> !taken
        },
{
    choose|before: HeaderMap<HeaderValue>, so_far: bool|
        map_filled(headers.drop_last(), before, so_far) && #[trigger] next_map(
            before,
            so_far,
            headers.last(),
            map,
            taken,
        )
}

/// A header map takes a few headers, whatever they are, and refuses headers with too many names.
pub proof fn few_headers_fit(headers: Seq<Header>, map: HeaderMap<HeaderValue>, taken: bool)
    requires
        map_filled(headers, map, taken),
    ensures
        headers.len() <= SURE_HEADERS ==> taken,
        crowded(protocol::headers_view(headers)) ==> !taken,
{
    lemma_map_filled(headers, map, taken);
}

/// The headers are too many for a header map: all but the last of them have [`MOST_NAMES`] names.
pub open spec fn crowded(headers: Seq<protocol::HeaderView>) -> bool {
    headers.len() > 0 && header_names(headers.drop_last()).len() >= MOST_NAMES
}

proof fn lemma_with_entry(entries: Seq<(Seq<char>, Seq<u8>)>, name: Seq<char>, value: Seq<u8>)
    ensures
        with_entry(entries, name, value).len() == entries.len() + 1,
        entry_names(with_entry(entries, name, value)) == entry_names(entries).insert(name),
    decreases entries.len(),
{
    let after = with_entry(entries, name, value);
    if entries.len() == 0 || entries.last().0 == name || !entry_names(entries).contains(name) {
        lemma_names_push(entries, (name, value));
    } else {
        let init = entries.drop_last();
        lemma_with_entry(init, name, value);
        lemma_names_push(with_entry(init, name, value), entries.last());
        lemma_names_push(init, entries.last());
        assert(init.push(entries.last()) =~= entries);
        assert(entry_names(after) =~= entry_names(entries).insert(name));
    }
}

proof fn lemma_names_push(entries: Seq<(Seq<char>, Seq<u8>)>, entry: (Seq<char>, Seq<u8>))
    ensures
        entry_names(entries.push(entry)) == entry_names(entries).insert(entry.0),
{
    let names = entries.map_values(|entry: (Seq<char>, Seq<u8>)| entry.0);
    let pushed = entries.push(entry).map_values(|entry: (Seq<char>, Seq<u8>)| entry.0);
    assert(pushed =~= names.push(entry.0));
    lemma_set_push(names, entry.0);
}

proof fn lemma_set_push(names: Seq<Seq<char>>, name: Seq<char>)
    ensures
        names.push(name).to_set() == names.to_set().insert(name),
{
    assert forall|x: Seq<char>| names.push(name).to_set().contains(x)
        == names.to_set().insert(name).contains(x) by {
        if names.contains(x) {
            let i = choose|i: int| 0 <= i < names.len() && names[i] == x;
            assert(names.push(name)[i] == x);
        }
        if x == name {
            assert(names.push(name)[names.len() as int] == x);
        }
    }
    assert(names.push(name).to_set() =~= names.to_set().insert(name));
}

proof fn lemma_map_filled(headers: Seq<Header>, map: HeaderMap<HeaderValue>, taken: bool)
    requires
        map_filled(headers, map, taken),
    ensures
        taken ==> header_entries(map).len() == headers.len(),
        taken ==> entry_names(header_entries(map)) == header_names(protocol::headers_view(headers)),
        headers.len() <= SURE_HEADERS ==> taken,
        crowded(protocol::headers_view(headers)) ==> !taken,
    decreases headers.len(),
{
    let views = protocol::headers_view(headers);
    if headers.len() == 0 {
        assert(entry_names(header_entries(map)) =~= header_names(views));
    } else {
        let (before, so_far) = choose|before: HeaderMap<HeaderValue>, so_far: bool|
            map_filled(headers.drop_last(), before, so_far) && #[trigger] next_map(
                before,
                so_far,
                headers.last(),
                map,
                taken,
            );
        let init = protocol::headers_view(headers.drop_last());
        let last = headers.last();
        lemma_map_filled(headers.drop_last(), before, so_far);
        assert(views.drop_last() =~= init);
        if so_far {
            let name = text::ascii_lower(last.name@);
            lemma_with_entry(
                header_entries(before),
                name,
                vstd::utf8::encode_utf8(last.value@),
            );
            let names = init.map_values(
                |header: protocol::HeaderView| text::ascii_lower(header.name),
            );
            assert(views.map_values(|header: protocol::HeaderView| text::ascii_lower(header.name))
                =~= names.push(name));
            lemma_set_push(names, name);
        }
    }
}

/// The headers with which a local answer with these headers is handed back.
pub fn answered_headers(headers: &HeaderMap<HeaderValue>) -> (list: Vec<Header>)
    ensures
        protocol::headers_view(list@) == carried(header_entries(*headers)),
{
    headers_to_protocol(&list_headers(headers))
}

/// The host that a public request names in its headers.
pub fn host_from_headers(headers: &HeaderMap<HeaderValue>) -> (host: Option<String>)
    ensures
        protocol::text_of(host) == named_host(header_entries(*headers)),
{
    proof {
        reveal_strlit("host");
        assert(text::ascii_lower("host"@) =~= "host"@);
    }
    match get_header(headers, "host") {
        Some(value) => read_value(&value),
        None => None,
    }
}

proof fn lemma_handed_on(headers: Seq<protocol::HeaderView>)
    ensures
        forall|i: int|
            0 <= i < handed_on(headers).len() ==> !is_hop_header(
                (#[trigger] handed_on(headers)[i]).name,
            ),
    decreases headers.len(),
{
    if headers.len() > 0 {
        let before = handed_on(headers.drop_last());
        lemma_handed_on(headers.drop_last());
        assert forall|i: int| 0 <= i < handed_on(headers).len() implies !is_hop_header(
            (#[trigger] handed_on(headers)[i]).name,
        ) by {
            if i < before.len() {
                assert(handed_on(headers)[i] == before[i]);
            }
        }
    }
}

proof fn lemma_kept_on(headers: Seq<protocol::HeaderView>, header: protocol::HeaderView)
    requires
        headers.contains(header),
        !is_hop_header(header.name),
    ensures
        handed_on(headers).contains(header),
    decreases headers.len(),
{
    let before = handed_on(headers.drop_last());
    let i = choose|i: int| 0 <= i < headers.len() && headers[i] == header;
    if i == headers.len() - 1 {
        assert(handed_on(headers)[before.len() as int] == header);
    } else {
        assert(headers.drop_last()[i] == header);
        lemma_kept_on(headers.drop_last(), header);
        let j = choose|j: int| 0 <= j < before.len() && before[j] == header;
        assert(handed_on(headers)[j] == header);
    }
}

proof fn lemma_carried(headers: Seq<(Seq<char>, Seq<u8>)>, header: (Seq<char>, Seq<u8>))
    requires
        headers.contains(header),
        readable(header.1),
    ensures
        carried(headers).contains(
            (protocol::HeaderView { name: header.0, value: value_text(header.1) }),
        ),
    decreases headers.len(),
{
    let text = protocol::HeaderView { name: header.0, value: value_text(header.1) };
    let before = carried(headers.drop_last());
    let i = choose|i: int| 0 <= i < headers.len() && headers[i] == header;
    if i == headers.len() - 1 {
        assert(carried(headers)[before.len() as int] == text);
    } else {
        assert(headers.drop_last()[i] == header);
        lemma_carried(headers.drop_last(), header);
        let j = choose|j: int| 0 <= j < before.len() && before[j] == text;
        assert(carried(headers)[j] == text);
    }
}

/// No forwarded request carries a `host` or a `connection` header, whatever the public request
/// carried.
pub proof fn hop_headers_are_not_forwarded(
    headers: Seq<(Seq<char>, Seq<u8>)>,
    host: Seq<char>,
    i: int,
)
    requires
        0 <= i < forwarded(headers, host).len(),
    ensures
        !is_hop_header(forwarded(headers, host)[i].name),
{
    reveal_strlit("host");
    reveal_strlit("connection");
    reveal_strlit("x-forwarded-host");
    reveal_strlit("x-forwarded-proto");
    reveal_strlit("x-forwarded-for");
    let kept = handed_on(carried(headers));
    lemma_handed_on(carried(headers));
    if i < kept.len() {
        assert(forwarded(headers, host)[i] == kept[i]);
    } else {
        let name = origin_headers(host)[i - kept.len()].name;
        assert(name.len() == 16 || name.len() == 17 || name.len() == 15);
    }
}

/// Every other header whose value is text is forwarded as it came.
pub proof fn readable_headers_are_forwarded(
    headers: Seq<(Seq<char>, Seq<u8>)>,
    host: Seq<char>,
    header: (Seq<char>, Seq<u8>),
)
    requires
        headers.contains(header),
        readable(header.1),
        !is_hop_header(header.0),
    ensures
        forwarded(headers, host).contains(
            (protocol::HeaderView { name: header.0, value: value_text(header.1) }),
        ),
{
    let text = protocol::HeaderView { name: header.0, value: value_text(header.1) };
    lemma_carried(headers, header);
    lemma_kept_on(carried(headers), text);
    let kept = handed_on(carried(headers));
    let i = choose|i: int| 0 <= i < kept.len() && kept[i] == text;
    assert(forwarded(headers, host)[i] == text);
}

/// Every forwarded request tells the local service the host that it was sent to.
pub proof fn forwarded_request_names_its_host(headers: Seq<(Seq<char>, Seq<u8>)>, host: Seq<char>)
    ensures
        forwarded(headers, host).contains(
            (protocol::HeaderView { name: "x-forwarded-host"@, value: host }),
        ),
{
    let at = handed_on(carried(headers)).len() as int;
    assert(forwarded(headers, host)[at] == origin_headers(host)[0]);
}

} // verus!
