//! What the service is configured with, what it is told of a request,
//! and the one ordered list of entries that every answer is made from.

use crate::text::{lower, names_match, same_name, shown, visible_text};
use vstd::prelude::*;

verus! {

/// Key of the entry that carries the client's address.
pub const IP_ADDRESS: &'static str = "ip_address";

/// Key of the entry that carries the request method.
pub const METHOD: &'static str = "method";

/// Key of the entry that carries the protocol version, and name of the header that overrides it.
pub const VERSION: &'static str = "version";

/// Settings of a running service. They are fixed before the first request is answered.
#[derive(Clone, Debug)]
pub struct Config {
    /// Listen on every interface.
    pub host: bool,
    /// Directory the style sheet is served from.
    pub serve_path: String,
    /// File name of the style sheet.
    pub css_file: String,
    /// Address to bind to. It is reported where a connection has no address of its own.
    pub bind_ip: String,
    /// Port to bind to.
    pub port: u16,
}

impl Config {
    /// Whether the service has an address: to bind to, and to report where a
    /// connection has none of its own.
    pub open spec fn has_address(&self) -> bool {
        self.bind_ip@.len() > 0
    }

    /// Tells whether the service has an address. One without is misconfigured.
    pub fn is_bound(&self) -> (bound: bool)
        ensures
            bound == self.has_address(),
    {
        self.bind_ip.as_str().unicode_len() > 0
    }
}

/// The address a service binds to where none is chosen.
pub open spec fn default_address(debug_build: bool) -> Seq<char> {
    if debug_build {
        "0.0.0.0"@
    } else {
        "127.0.0.1"@
    }
}

/// The address a service binds to where none is chosen: every interface in a
/// debug build, the loopback interface otherwise.
pub fn default_bind_ip(debug_build: bool) -> (address: &'static str)
    ensures
        address@ == default_address(debug_build),
{
    if debug_build {
        "0.0.0.0"
    } else {
        "127.0.0.1"
    }
}

/// Settles the configuration: asked to listen on every interface, the service
/// binds to `0.0.0.0` whatever address was given. Nothing else changes.
pub fn config(parsed: Config) -> (settled: Config)
    ensures
        settled.host == parsed.host,
        settled.serve_path@ == parsed.serve_path@,
        settled.css_file@ == parsed.css_file@,
        settled.port == parsed.port,
        settled.bind_ip@ == (if parsed.host {
            "0.0.0.0"@
        } else {
            parsed.bind_ip@
        }),
{
    let mut settled = parsed;
    if settled.host {
        settled.bind_ip = "0.0.0.0".to_owned();
    }
    settled
}

/// The protocol versions a connection can have negotiated.
#[derive(Clone, Copy, Debug, PartialEq, Eq)]
pub enum Protocol {
    Http09,
    Http10,
    Http11,
    Http2,
    Http3,
}

/// What the service is told of one request.
#[derive(Clone, Debug)]
pub struct Request {
    /// The client's address as the connection resolved it, where it could.
    pub peer: Option<String>,
    /// The request method, as sent.
    pub method: String,
    /// The protocol version the connection negotiated.
    pub protocol: Protocol,
    /// Every header of the request, name and raw value, in the order received.
    pub headers: Vec<(String, Vec<u8>)>,
}

/// A request as the contracts see it.
pub struct RequestView {
    pub peer: Option<Seq<char>>,
    pub method: Seq<char>,
    pub protocol: Protocol,
    pub headers: Seq<(Seq<char>, Seq<u8>)>,
}

impl View for Request {
    type V = RequestView;

    open spec fn view(&self) -> RequestView {
        RequestView {
            peer: self.peer.deep_view(),
            method: self.method@,
            protocol: self.protocol,
            headers: Seq::new(
                self.headers@.len(),
                |i: int| (self.headers@[i].0@, self.headers@[i].1@),
            ),
        }
    }
}

/// The address reported for a client: the one the connection resolved, or
/// `fallback` where it resolved none or an empty one.
pub open spec fn address_of(peer: Option<Seq<char>>, fallback: Seq<char>) -> Seq<char> {
    match peer {
        Some(a) => if a.len() > 0 {
            a
        } else {
            fallback
        },
        None => fallback,
    }
}

/// Resolves the client's address. It always gives one: a connection without an
/// address of its own is reported under `fallback`.
pub fn resolve_address(peer: &Option<String>, fallback: &str) -> (address: String)
    ensures
        address@ == address_of(peer.deep_view(), fallback@),
        fallback@.len() > 0 ==> address@.len() > 0,
{
    match peer {
        Some(a) => {
            if a.as_str().unicode_len() > 0 {
                a.clone()
            } else {
                fallback.to_owned()
            }
        },
        None => fallback.to_owned(),
    }
}

/// The raw value of the first header at or after `from` that goes by `name`.
pub open spec fn header_from(headers: Seq<(Seq<char>, Seq<u8>)>, name: Seq<char>, from: int) -> Option<
    Seq<u8>,
>
    decreases headers.len() - from,
{
    if from >= headers.len() {
        None
    } else if same_name(headers[from].0, name) {
        Some(headers[from].1)
    } else {
        header_from(headers, name, from + 1)
    }
}

/// What a request says under `name`: the value of the first header of that name,
/// read as text. A header sent twice counts once, by its first value. A value
/// that is empty or cannot be shown as text counts as not sent.
pub open spec fn header_text(headers: Seq<(Seq<char>, Seq<u8>)>, name: Seq<char>) -> Option<
    Seq<char>,
> {
    match header_from(headers, name, 0) {
        Some(value) => match shown(value) {
            Some(t) => if t.len() > 0 {
                Some(t)
            } else {
                None
            },
            None => None,
        },
        None => None,
    }
}

/// Looks up what the request says under `name`.
pub fn header(req: &Request, name: &str) -> (found: Option<String>)
    ensures
        found.deep_view() == header_text(req@.headers, name@),
{
    let n = req.headers.len();
    let mut i: usize = 0;
    while i < n
        invariant
            n == req.headers@.len(),
            i <= n,
            header_from(req@.headers, name@, 0) == header_from(req@.headers, name@, i as int),
        decreases n - i,
    {
        if names_match(req.headers[i].0.as_str(), name) {
            return match visible_text(&req.headers[i].1) {
                Some(t) => {
                    if t.as_str().unicode_len() > 0 {
                        Some(t)
                    } else {
                        None
                    }
                },
                None => None,
            };
        }
        i += 1;
    }
    None
}

/// The names of the headers that are reported, in the order in which they are reported.
pub open spec fn allow_list() -> Seq<Seq<char>> {
    seq![
        "accept"@,
        "accept-encoding"@,
        "accept-language"@,
        "accept-charset"@,
        "accept-ranges"@,
        "user-agent"@,
        "host"@,
        "server"@,
    ]
}

/// The names in a list of header names.
pub open spec fn names_of(list: Seq<&str>) -> Seq<Seq<char>> {
    Seq::new(list.len(), |i: int| list[i]@)
}

/// The headers that are reported, in the order in which they are reported.
pub fn header_list() -> (list: Vec<&'static str>)
    ensures
        names_of(list@) == allow_list(),
{
    let mut list: Vec<&'static str> = Vec::new();
    list.push("accept");
    list.push("accept-encoding");
    list.push("accept-language");
    list.push("accept-charset");
    list.push("accept-ranges");
    list.push("user-agent");
    list.push("host");
    list.push("server");
    list
}

/// The reported headers of a request: for each name of `allow`, in the order of
/// `allow`, the name and what the request says under it, where it says anything.
pub open spec fn canonical_headers(headers: Seq<(Seq<char>, Seq<u8>)>, allow: Seq<Seq<char>>) -> Seq<
    (Seq<char>, Seq<char>),
>
    decreases allow.len(),
{
    if allow.len() == 0 {
        Seq::empty()
    } else {
        let before = canonical_headers(headers, allow.drop_last());
        match header_text(headers, allow.last()) {
            Some(t) => before.push((allow.last(), t)),
            None => before,
        }
    }
}

/// Picks from a request the headers named in `allow`, in the order of `allow`
/// and not in the order sent. A header that the request lacks, or sends empty
/// or unreadable, is left out.
pub fn canonicalize(req: &Request, allow: &Vec<&str>) -> (entries: Vec<(String, String)>)
    ensures
        entries.deep_view() == canonical_headers(req@.headers, names_of(allow@)),
{
    let ghost names = names_of(allow@);
    let mut entries: Vec<(String, String)> = Vec::new();
    let n = allow.len();
    let mut i: usize = 0;
    while i < n
        invariant
            n == allow@.len(),
            names == names_of(allow@),
            i <= n,
            entries.deep_view() == canonical_headers(req@.headers, names.take(i as int)),
        decreases n - i,
    {
        let name: &str = allow[i];
        proof {
            assert(names.take(i + 1).drop_last() =~= names.take(i as int));
        }
        match header(req, name) {
            Some(value) => {
                entries.push((name.to_owned(), value));
            },
            None => {},
        }
        i += 1;
    }
    proof {
        assert(names.take(n as int) =~= names);
    }
    entries
}

/// How a protocol version is written.
pub open spec fn protocol_text(protocol: Protocol) -> Seq<char> {
    match protocol {
        Protocol::Http09 => "HTTP/0.9"@,
        Protocol::Http10 => "HTTP/1.0"@,
        Protocol::Http11 => "HTTP/1.1"@,
        Protocol::Http2 => "HTTP/2.0"@,
        Protocol::Http3 => "HTTP/3.0"@,
    }
}

/// Writes a protocol version the way a status line does.
pub fn protocol_name(protocol: Protocol) -> (name: &'static str)
    ensures
        name@ == protocol_text(protocol),
{
    match protocol {
        Protocol::Http09 => "HTTP/0.9",
        Protocol::Http10 => "HTTP/1.0",
        Protocol::Http11 => "HTTP/1.1",
        Protocol::Http2 => "HTTP/2.0",
        Protocol::Http3 => "HTTP/3.0",
    }
}

/// The version reported for a request: what its `version` header says, or
/// else the version the connection negotiated.
pub open spec fn version_of(req: RequestView) -> Seq<char> {
    match header_text(req.headers, VERSION@) {
        Some(t) => t,
        None => protocol_text(req.protocol),
    }
}

/// Resolves the protocol version. A proxy in front of the service cannot keep
/// the version the client spoke, so it may name it in a `version` header: that
/// header wins, word for word. Without it, or where it is empty or unreadable,
/// the version of the connection is written out.
pub fn resolve_version(req: &Request) -> (version: String)
    ensures
        version@ == version_of(req@),
        version@.len() > 0,
{
    match header(req, VERSION) {
        Some(t) => t,
        None => {
            proof {
                reveal_strlit("HTTP/0.9");
                reveal_strlit("HTTP/1.0");
                reveal_strlit("HTTP/1.1");
                reveal_strlit("HTTP/2.0");
                reveal_strlit("HTTP/3.0");
            }
            protocol_name(req.protocol).to_owned()
        },
    }
}

/// The list every answer is made from: the client's address first, then the
/// reported headers, then the protocol version, and the method last.
pub open spec fn response_list(req: RequestView, fallback: Seq<char>) -> Seq<(Seq<char>, Seq<char>)> {
    seq![(IP_ADDRESS@, address_of(req.peer, fallback))] + canonical_headers(
        req.headers,
        allow_list(),
    ) + seq![(VERSION@, version_of(req)), (METHOD@, req.method)]
}

/// Builds the list of entries for one request.
pub fn gen_response(req: &Request, config: &Config) -> (list: Vec<(String, String)>)
    ensures
        list.deep_view() == response_list(req@, config.bind_ip@),
        is_canonical(list.deep_view(), allow_list()),
{
    let allow = header_list();
    let mut list: Vec<(String, String)> = Vec::new();
    list.push((IP_ADDRESS.to_owned(), resolve_address(&req.peer, config.bind_ip.as_str())));
    let mut found = canonicalize(req, &allow);
    list.append(&mut found);
    list.push((VERSION.to_owned(), resolve_version(req)));
    list.push((METHOD.to_owned(), req.method.clone()));
    proof {
        assert(list.deep_view() =~= response_list(req@, config.bind_ip@));
        lemma_response_list(req@, config.bind_ip@);
    }
    list
}

/// No name stands twice in `names`.
pub open spec fn distinct(names: Seq<Seq<char>>) -> bool {
    forall|i: int, j: int| 0 <= i < j < names.len() ==> names[i] != names[j]
}

/// No two entries of `list` share a key.
pub open spec fn distinct_keys(list: Seq<(Seq<char>, Seq<char>)>) -> bool {
    forall|i: int, j: int| 0 <= i < j < list.len() ==> list[i].0 != list[j].0
}

/// Whether `list` has the shape of an answer list over the headers of `allow`.
///
/// The client's address comes first, the method last and the version just
/// before it. Between them stand reported headers only: each named in `allow`,
/// none empty, in the order of `allow`. No two entries share a key.
pub open spec fn is_canonical(list: Seq<(Seq<char>, Seq<char>)>, allow: Seq<Seq<char>>) -> bool {
    &&& list.len() >= 3
    &&& list.first().0 == IP_ADDRESS@
    &&& list[list.len() - 2].0 == VERSION@
    &&& list.last().0 == METHOD@
    &&& distinct_keys(list)
    &&& forall|i: int|
        0 < i < list.len() - 2 ==> allow.contains(#[trigger] list[i].0) && list[i].1.len() > 0
    &&& forall|i: int, j: int|
        0 < i < j < list.len() - 2 ==> allow.index_of(list[i].0) < allow.index_of(list[j].0)
}

/// In a list without repetition a name is found where it stands.
pub proof fn lemma_index_of_distinct(names: Seq<Seq<char>>, at: int)
    requires
        distinct(names),
        0 <= at < names.len(),
    ensures
        names.contains(names[at]),
        names.index_of(names[at]) == at,
{
}

/// The reported headers are named in `allow`, say what the request says under
/// their name, follow the order of `allow`, and miss no name under which the
/// request says anything.
pub proof fn lemma_canonical_headers(headers: Seq<(Seq<char>, Seq<u8>)>, allow: Seq<Seq<char>>)
    requires
        distinct(allow),
    ensures
        canonical_headers(headers, allow).len() <= allow.len(),
        forall|i: int|
            0 <= i < canonical_headers(headers, allow).len() ==> {
                let entry = #[trigger] canonical_headers(headers, allow)[i];
                &&& allow.contains(entry.0)
                &&& header_text(headers, entry.0) == Some(entry.1)
                &&& entry.1.len() > 0
            },
        forall|i: int, j: int|
            0 <= i < j < canonical_headers(headers, allow).len() ==> allow.index_of(
                canonical_headers(headers, allow)[i].0,
            ) < allow.index_of(canonical_headers(headers, allow)[j].0),
        forall|a: int|
            0 <= a < allow.len() && header_text(headers, #[trigger] allow[a]) is Some ==> exists|
                i: int,
            |
                0 <= i < canonical_headers(headers, allow).len() && canonical_headers(
                    headers,
                    allow,
                )[i].0 == allow[a],
    decreases allow.len(),
{
    let r = canonical_headers(headers, allow);
    if allow.len() > 0 {
        let shorter = allow.drop_last();
        let before = canonical_headers(headers, shorter);
        let top = allow.len() - 1;
        lemma_canonical_headers(headers, shorter);
        lemma_index_of_distinct(allow, top);
        assert forall|i: int| 0 <= i < before.len() implies allow.contains(#[trigger] before[i].0)
            && allow.index_of(before[i].0) == shorter.index_of(before[i].0) && allow.index_of(
            before[i].0,
        ) < top by {
            let at = shorter.index_of(before[i].0);
            lemma_index_of_distinct(allow, at);
        }
        assert forall|a: int|
            0 <= a < allow.len() && header_text(headers, #[trigger] allow[a]) is Some implies exists|
            i: int,
        |
            0 <= i < r.len() && r[i].0 == allow[a] by {
            if a < top {
                let i = choose|i: int| 0 <= i < before.len() && before[i].0 == shorter[a];
                assert(r[i].0 == allow[a]);
            } else {
                assert(r[r.len() - 1].0 == allow[a]);
            }
        }
    }
}

/// The reported headers are eight, each named once, and none goes by the key
/// of the address, the version or the method.
pub proof fn lemma_allow_list()
    ensures
        allow_list().len() == 8,
        distinct(allow_list()),
        !allow_list().contains(IP_ADDRESS@),
        !allow_list().contains(VERSION@),
        !allow_list().contains(METHOD@),
        IP_ADDRESS@ != VERSION@,
        IP_ADDRESS@ != METHOD@,
        VERSION@ != METHOD@,
{
    reveal_strlit("accept");
    reveal_strlit("accept-encoding");
    reveal_strlit("accept-language");
    reveal_strlit("accept-charset");
    reveal_strlit("accept-ranges");
    reveal_strlit("user-agent");
    reveal_strlit("host");
    reveal_strlit("server");
    reveal_strlit("ip_address");
    reveal_strlit("version");
    reveal_strlit("method");
    let names = allow_list();
    assert(names[1].len() == 15 && names[1][7] == 'e');
    assert(names[2].len() == 15 && names[2][7] == 'l');
    assert(names[3].len() == 14);
    assert(names[4].len() == 13);
    assert(names[5].len() == 10 && names[5][0] == 'u');
    assert(names[6].len() == 4);
    assert(names[7].len() == 6 && names[7][0] == 's');
    assert(IP_ADDRESS@.len() == 10 && IP_ADDRESS@[0] == 'i');
    assert(VERSION@.len() == 7);
    assert(METHOD@.len() == 6 && METHOD@[0] == 'm');
}

/// Every answer list has the shape of one: the address first, the method last,
/// the version once and just before the method, no key twice.
pub proof fn lemma_response_list(req: RequestView, fallback: Seq<char>)
    ensures
        is_canonical(response_list(req, fallback), allow_list()),
        forall|i: int|
            0 <= i < response_list(req, fallback).len() ==> (#[trigger] response_list(
                req,
                fallback,
            )[i].0 == VERSION@ <==> i == response_list(req, fallback).len() - 2),
{
    let list = response_list(req, fallback);
    let middle = canonical_headers(req.headers, allow_list());
    lemma_allow_list();
    lemma_canonical_headers(req.headers, allow_list());
    assert forall|i: int| 0 < i < list.len() - 2 implies list[i] == middle[i - 1] by {}
}

/// Only what the request says under a reported name is in the answer list.
///
/// Each entry between the address and the version is a reported header with
/// what the request says under its name. So a name under which the request
/// says nothing, be it for want of the header or because its value is empty or
/// unreadable, is the key of no such entry; and a name that is not reported is
/// the key of no entry at all, unless it is one of the three fixed keys.
pub proof fn lemma_only_reported_headers(req: RequestView, fallback: Seq<char>, name: Seq<char>)
    ensures
        forall|i: int|
            0 < i < response_list(req, fallback).len() - 2 ==> {
                let entry = #[trigger] response_list(req, fallback)[i];
                &&& allow_list().contains(entry.0)
                &&& header_text(req.headers, entry.0) == Some(entry.1)
            },
        header_text(req.headers, name) is None ==> forall|i: int|
            0 < i < response_list(req, fallback).len() - 2 ==> (#[trigger] response_list(
                req,
                fallback,
            )[i]).0 != name,
        !allow_list().contains(name) && name != IP_ADDRESS@ && name != VERSION@ && name != METHOD@
            ==> forall|i: int|
            0 <= i < response_list(req, fallback).len() ==> (#[trigger] response_list(
                req,
                fallback,
            )[i]).0 != name,
{
    let list = response_list(req, fallback);
    let middle = canonical_headers(req.headers, allow_list());
    lemma_allow_list();
    lemma_canonical_headers(req.headers, allow_list());
    assert forall|i: int| 0 < i < list.len() - 2 implies list[i] == middle[i - 1] by {}
}

/// A `version` header that says anything is reported word for word,
/// whatever version the connection negotiated.
pub proof fn lemma_version_override(req: RequestView, fallback: Seq<char>, said: Seq<char>)
    requires
        header_text(req.headers, VERSION@) == Some(said),
    ensures
        version_of(req) == said,
        response_list(req, fallback)[response_list(req, fallback).len() - 2] == (VERSION@, said),
{
}

/// No value of an answer list is empty, where the service has an address to
/// fall back on and the request a method.
pub proof fn lemma_values_not_empty(req: RequestView, fallback: Seq<char>)
    requires
        fallback.len() > 0,
        req.method.len() > 0,
    ensures
        forall|i: int|
            0 <= i < response_list(req, fallback).len() ==> (#[trigger] response_list(
                req,
                fallback,
            )[i]).1.len() > 0,
{
    lemma_response_list(req, fallback);
    reveal_strlit("HTTP/0.9");
    reveal_strlit("HTTP/1.0");
    reveal_strlit("HTTP/1.1");
    reveal_strlit("HTTP/2.0");
    reveal_strlit("HTTP/3.0");
}

/// The request `req` with `headers` for its headers.
pub open spec fn with_headers(req: RequestView, headers: Seq<(Seq<char>, Seq<u8>)>) -> RequestView {
    RequestView { peer: req.peer, method: req.method, protocol: req.protocol, headers }
}

/// The headers with the two at `at` and `at + 1` in each other's place.
pub open spec fn swapped(headers: Seq<(Seq<char>, Seq<u8>)>, at: int) -> Seq<(Seq<char>, Seq<u8>)> {
    headers.update(at, headers[at + 1]).update(at + 1, headers[at])
}

/// Past the two headers that changed places, a lookup finds what it found.
proof fn lemma_header_from_after(
    headers: Seq<(Seq<char>, Seq<u8>)>,
    at: int,
    name: Seq<char>,
    from: int,
)
    requires
        0 <= at,
        at + 1 < headers.len(),
        at + 2 <= from,
    ensures
        header_from(swapped(headers, at), name, from) == header_from(headers, name, from),
    decreases headers.len() - from,
{
    if from < headers.len() {
        lemma_header_from_after(headers, at, name, from + 1);
    }
}

/// Up to the two headers that changed places, a lookup finds what it found,
/// where the two go by different names.
proof fn lemma_header_from_before(
    headers: Seq<(Seq<char>, Seq<u8>)>,
    at: int,
    name: Seq<char>,
    from: int,
)
    requires
        0 <= from <= at,
        at + 1 < headers.len(),
        !same_name(headers[at].0, headers[at + 1].0),
    ensures
        header_from(swapped(headers, at), name, from) == header_from(headers, name, from),
    decreases at - from,
{
    if from < at {
        lemma_header_from_before(headers, at, name, from + 1);
    } else {
        let other = swapped(headers, at);
        lemma_header_from_after(headers, at, name, at + 2);
        assert(other[at] == headers[at + 1] && other[at + 1] == headers[at]);
        assert(header_from(other, name, at) == if same_name(other[at].0, name) {
            Some(other[at].1)
        } else {
            header_from(other, name, at + 1)
        });
        assert(header_from(headers, name, at) == if same_name(headers[at].0, name) {
            Some(headers[at].1)
        } else {
            header_from(headers, name, at + 1)
        });
        if same_name(headers[at].0, name) && same_name(headers[at + 1].0, name) {
            assert forall|i: int| 0 <= i < headers[at].0.len() implies lower(headers[at].0[i])
                == lower(headers[at + 1].0[i]) by {
                assert(lower(headers[at].0[i]) == lower(name[i]));
                assert(lower(headers[at + 1].0[i]) == lower(name[i]));
            }
        }
    }
}

/// Requests that say the same under every name report the same headers.
pub proof fn lemma_canonical_headers_alike(
    one: Seq<(Seq<char>, Seq<u8>)>,
    other: Seq<(Seq<char>, Seq<u8>)>,
    allow: Seq<Seq<char>>,
)
    requires
        forall|name: Seq<char>| #[trigger] header_text(one, name) == header_text(other, name),
    ensures
        canonical_headers(one, allow) == canonical_headers(other, allow),
    decreases allow.len(),
{
    if allow.len() > 0 {
        lemma_canonical_headers_alike(one, other, allow.drop_last());
    }
}

/// The order in which a request sends its headers does not show in its
/// answers: where two headers that stand side by side go by different names,
/// the request says the same under every name with the two in each other's
/// place, and so its answer list is the same.
pub proof fn lemma_order_sent_does_not_matter(req: RequestView, at: int, fallback: Seq<char>)
    requires
        0 <= at,
        at + 1 < req.headers.len(),
        !same_name(req.headers[at].0, req.headers[at + 1].0),
    ensures
        forall|name: Seq<char>| #[trigger]
            header_text(swapped(req.headers, at), name) == header_text(req.headers, name),
        response_list(with_headers(req, swapped(req.headers, at)), fallback) == response_list(
            req,
            fallback,
        ),
{
    assert forall|name: Seq<char>| #[trigger]
        header_text(swapped(req.headers, at), name) == header_text(req.headers, name) by {
        lemma_header_from_before(req.headers, at, name, 0);
    }
    lemma_canonical_headers_alike(swapped(req.headers, at), req.headers, allow_list());
}

} // verus!
