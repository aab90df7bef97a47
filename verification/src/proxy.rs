//! HTTP requests that a client asks the server to make on its behalf: which
//! are refused, and what exactly is sent for the others.
use crate::primitives::{
    ascii_chars, ascii_text, is_header_text, is_header_text_byte, to_lowercase, unicode_lowercase,
    url_accepted, url_parses,
};
use crate::text::{has_prefix, text_equals, utf8_bytes};
use vstd::prelude::*;

verus! {

/// A client's request to fetch a URL through the server.
///
/// Headers are a list of (name, value) pairs rather than a `HashMap`: vstd's
/// `HashMap` specification does not cover `String` keys, and the order in
/// which a `HashMap` is walked is seeded per process.
#[derive(Debug, PartialEq, Eq)]
pub struct HttpProxyRequest {
    pub message_type: String,
    pub id: String,
    pub method: String,
    pub url: String,
    pub headers: Vec<(String, String)>,
    pub body: Option<Vec<u8>>,
}

/// The server's answer to an `HttpProxyRequest`.
#[derive(Debug, PartialEq, Eq)]
pub struct HttpProxyResponse {
    pub message_type: String,
    pub id: String,
    pub status_code: u16,
    pub headers: Vec<(String, String)>,
    pub body: Vec<u8>,
}

/// The HTTP methods the proxy forwards.
#[derive(Debug, Clone, Copy, PartialEq, Eq)]
pub enum HttpMethod {
    Get,
    Post,
    Put,
    Delete,
    Head,
    Patch,
}

/// What the server sends for an accepted proxy request.
#[derive(Debug, PartialEq, Eq)]
pub struct ProxyPlan {
    pub method: HttpMethod,
    pub url: String,
    pub headers: Vec<(String, String)>,
    pub body: Option<Vec<u8>>,
}

/// The method named by `name`: one of the six upper-case names, exactly.
pub open spec fn method_named(name: Seq<char>) -> Option<HttpMethod> {
    if name == "GET"@ {
        Some(HttpMethod::Get)
    } else if name == "POST"@ {
        Some(HttpMethod::Post)
    } else if name == "PUT"@ {
        Some(HttpMethod::Put)
    } else if name == "DELETE"@ {
        Some(HttpMethod::Delete)
    } else if name == "HEAD"@ {
        Some(HttpMethod::Head)
    } else if name == "PATCH"@ {
        Some(HttpMethod::Patch)
    } else {
        None
    }
}

/// A client header is passed on unless its lower-cased name starts with
/// `host` or `connection`.
pub open spec fn header_passes(name: Seq<char>) -> bool {
    !"host"@.is_prefix_of(unicode_lowercase(name)) && !"connection"@.is_prefix_of(
        unicode_lowercase(name),
    )
}

/// A client header is passed on exactly when its lower-cased name starts
/// neither with `host` nor with `connection`: `Host`, `HOST-x`, `Connection`
/// and `connection-token` are dropped, `Content-Type` or `X-Host` are kept.
pub proof fn lemma_header_passes_unless_host_or_connection(name: Seq<char>)
    ensures
        header_passes(name) <==> !(unicode_lowercase(name).len() >= 4 && unicode_lowercase(
            name,
        ).subrange(0, 4) == seq!['h', 'o', 's', 't']) && !(unicode_lowercase(name).len() >= 10
            && unicode_lowercase(name).subrange(0, 10) == seq![
            'c',
            'o',
            'n',
            'n',
            'e',
            'c',
            't',
            'i',
            'o',
            'n',
        ]),
{
    reveal_strlit("host");
    reveal_strlit("connection");
    let l = unicode_lowercase(name);
    assert("host"@ =~= seq!['h', 'o', 's', 't']);
    assert("connection"@ =~= seq!['c', 'o', 'n', 'n', 'e', 'c', 't', 'i', 'o', 'n']);
}

/// A header as a pair of texts.
pub open spec fn header_view(h: (String, String)) -> (Seq<char>, Seq<char>) {
    (h.0@, h.1@)
}

/// The headers sent for a proxied request: the client's headers that pass,
/// in their order, then the server's user agent.
pub open spec fn sent_headers(client: Seq<(String, String)>) -> Seq<(Seq<char>, Seq<char>)> {
    client.filter(|h: (String, String)| header_passes(h.0@)).map_values(
        |h: (String, String)| header_view(h),
    ).push(("User-Agent"@, "QuantumVPN/1.0"@))
}

/// The answer of the proxy with no headers.
pub open spec fn plain_response(r: HttpProxyResponse, id: Seq<char>, status: u16, body: Seq<u8>) -> bool {
    &&& r.message_type@ == "http_proxy_response"@
    &&& r.id@ == id
    &&& r.status_code == status
    &&& r.headers@.len() == 0
    &&& r.body@ == body
}

/// Reads an HTTP method name.
pub fn parse_method(name: &str) -> (r: Option<HttpMethod>)
    ensures
        r == method_named(name@),
{
    if text_equals(name, "GET") {
        Some(HttpMethod::Get)
    } else if text_equals(name, "POST") {
        Some(HttpMethod::Post)
    } else if text_equals(name, "PUT") {
        Some(HttpMethod::Put)
    } else if text_equals(name, "DELETE") {
        Some(HttpMethod::Delete)
    } else if text_equals(name, "HEAD") {
        Some(HttpMethod::Head)
    } else if text_equals(name, "PATCH") {
        Some(HttpMethod::Patch)
    } else {
        None
    }
}

/// Whether a client header with this name is passed on.
pub fn forwards_header(name: &str) -> (r: bool)
    ensures
        r == header_passes(name@),
        r == (!"host"@.is_prefix_of(unicode_lowercase(name@)) && !"connection"@.is_prefix_of(
            unicode_lowercase(name@),
        )),
{
    let lower = to_lowercase(name);
    header_name_passes(lower.as_str())
}

/// Whether a header whose lower-cased name is `lower` is passed on.
pub fn header_name_passes(lower: &str) -> (r: bool)
    ensures
        r == (!"host"@.is_prefix_of(lower@) && !"connection"@.is_prefix_of(lower@)),
{
    !has_prefix(lower, "host") && !has_prefix(lower, "connection")
}

/// A proxy answer with no headers.
fn plain(id: String, status_code: u16, body: Vec<u8>) -> (r: HttpProxyResponse)
    ensures
        plain_response(r, id@, status_code, body@),
{
    HttpProxyResponse {
        message_type: "http_proxy_response".to_owned(),
        id,
        status_code,
        headers: Vec::new(),
        body,
    }
}

/// Decides what to do with a proxy request: refuse an unparsable URL (400)
/// or an unknown method (405), or send the request with the passing client
/// headers, the server's user agent and the client's body.
pub fn plan_proxy_request(request: HttpProxyRequest) -> (r: Result<ProxyPlan, HttpProxyResponse>)
    ensures
        !url_accepted(request.url@) ==> (r matches Err(resp) && plain_response(
            resp,
            request.id@,
            400,
            vstd::utf8::encode_utf8("Invalid URL"@),
        )),
        url_accepted(request.url@) && method_named(request.method@) is None ==> (r matches Err(resp)
            && plain_response(
            resp,
            request.id@,
            405,
            vstd::utf8::encode_utf8("Method not allowed"@),
        )),
        url_accepted(request.url@) && method_named(request.method@) is Some ==> (r matches Ok(plan)
            && Some(plan.method) == method_named(request.method@) && plan.url == request.url
            && plan.headers@.map_values(|h: (String, String)| header_view(h)) == sent_headers(
            request.headers@,
        ) && plan.body == request.body),
{
    if !url_parses(request.url.as_str()) {
        return Err(plain(request.id, 400, utf8_bytes("Invalid URL")));
    }
    let method = match parse_method(request.method.as_str()) {
        Some(m) => m,
        None => {
            return Err(plain(request.id, 405, utf8_bytes("Method not allowed")));
        },
    };
    let ghost client = request.headers@;
    let ghost pred = |h: (String, String)| header_passes(h.0@);
    let ghost view = |h: (String, String)| header_view(h);
    let mut headers: Vec<(String, String)> = Vec::new();
    let mut i: usize = 0;
    while i < request.headers.len()
        invariant
            i <= client.len(),
            client == request.headers@,
            pred == (|h: (String, String)| header_passes(h.0@)),
            view == (|h: (String, String)| header_view(h)),
            headers@.map_values(view) == client.subrange(0, i as int).filter(pred).map_values(view),
        decreases client.len() - i,
    {
        let name = &request.headers[i].0;
        let value = &request.headers[i].1;
        let passes = forwards_header(name.as_str());
        proof {
            reveal_with_fuel(Seq::<_>::filter, 1);
            assert(client.subrange(0, i + 1).drop_last() =~= client.subrange(0, i as int));
            assert(client.subrange(0, i + 1).last() == client[i as int]);
        }
        if passes {
            let ghost before = headers@;
            headers.push((name.clone(), value.clone()));
            proof {
                assert(headers@.map_values(view) =~= before.map_values(view).push(view(client[i as int])));
                assert(client.subrange(0, i + 1).filter(pred) == client.subrange(0, i as int).filter(pred).push(client[i as int]));
                assert(client.subrange(0, i as int).filter(pred).push(client[i as int]).map_values(view)
                    =~= client.subrange(0, i as int).filter(pred).map_values(view).push(view(client[i as int])));
            }
        } else {
            proof {
                assert(!pred(client[i as int]));
            }
        }
        i = i + 1;
    }
    let ghost before = headers@;
    headers.push(("User-Agent".to_owned(), "QuantumVPN/1.0".to_owned()));
    proof {
        assert(client.subrange(0, client.len() as int) =~= client);
        assert(headers@.map_values(view) =~= before.map_values(view).push(("User-Agent"@, "QuantumVPN/1.0"@)));
    }
    Ok(ProxyPlan { method, url: request.url, headers, body: request.body })
}

/// The headers of a reply, each name with its last value: a later pair with
/// the same name replaces an earlier one.
pub open spec fn header_map(hs: Seq<(String, String)>) -> Map<Seq<char>, Seq<char>>
    decreases hs.len(),
{
    if hs.len() == 0 {
        Map::empty()
    } else {
        header_map(hs.drop_last()).insert(hs.last().0@, hs.last().1@)
    }
}

/// The readable headers of the remote server's reply, given as (name, value
/// bytes): each value that is header text, read as characters, under its name;
/// a later header of the same name replaces an earlier one.
pub open spec fn readable_headers(raw: Seq<(String, Vec<u8>)>) -> Map<Seq<char>, Seq<char>>
    decreases raw.len(),
{
    if raw.len() == 0 {
        Map::empty()
    } else if is_header_text(raw.last().1@) {
        readable_headers(raw.drop_last()).insert(raw.last().0@, ascii_chars(raw.last().1@))
    } else {
        readable_headers(raw.drop_last())
    }
}

/// No two headers share a name.
pub open spec fn header_names_distinct(hs: Seq<(String, String)>) -> bool {
    forall|i: int, j: int| 0 <= i < j < hs.len() ==> #[trigger] hs[i].0@ != #[trigger] hs[j].0@
}

proof fn lemma_header_map_domain(hs: Seq<(String, String)>, k: Seq<char>)
    ensures
        header_map(hs).contains_key(k) <==> exists|i: int| 0 <= i < hs.len() && #[trigger] hs[i].0@ == k,
    decreases hs.len(),
{
    if hs.len() > 0 {
        let t = hs.drop_last();
        lemma_header_map_domain(t, k);
        if header_map(hs).contains_key(k) {
            if k == hs.last().0@ {
                assert(hs[hs.len() - 1].0@ == k);
            } else {
                let i = choose|i: int| 0 <= i < t.len() && #[trigger] t[i].0@ == k;
                assert(hs[i].0@ == k);
            }
        }
        if exists|i: int| 0 <= i < hs.len() && #[trigger] hs[i].0@ == k {
            let i = choose|i: int| 0 <= i < hs.len() && #[trigger] hs[i].0@ == k;
            if i < hs.len() - 1 {
                assert(t[i].0@ == k);
            }
        }
    }
}

proof fn lemma_header_map_value(hs: Seq<(String, String)>, i: int)
    requires
        header_names_distinct(hs),
        0 <= i < hs.len(),
    ensures
        header_map(hs).contains_key(hs[i].0@),
        header_map(hs)[hs[i].0@] == hs[i].1@,
    decreases hs.len(),
{
    let t = hs.drop_last();
    if i < hs.len() - 1 {
        assert(header_names_distinct(t)) by {
            assert forall|a: int, b: int| 0 <= a < b < t.len() implies #[trigger] t[a].0@
                != #[trigger] t[b].0@ by {
                assert(hs[a].0@ != hs[b].0@);
            }
        }
        assert(hs[i].0@ != hs[hs.len() - 1].0@);
        assert(t[i] == hs[i]);
        lemma_header_map_value(t, i);
    }
}

proof fn lemma_header_map_update(hs: Seq<(String, String)>, j: int, x: (String, String))
    requires
        header_names_distinct(hs),
        0 <= j < hs.len(),
        hs[j].0@ == x.0@,
    ensures
        header_names_distinct(hs.update(j, x)),
        header_map(hs.update(j, x)) =~= header_map(hs).insert(x.0@, x.1@),
{
    let u = hs.update(j, x);
    assert(header_names_distinct(u)) by {
        assert forall|a: int, b: int| 0 <= a < b < u.len() implies #[trigger] u[a].0@
            != #[trigger] u[b].0@ by {
            assert(hs[a].0@ != hs[b].0@);
        }
    }
    assert forall|k: Seq<char>| #[trigger] header_map(u).contains_key(k) <==> header_map(hs).insert(
        x.0@,
        x.1@,
    ).contains_key(k) by {
        lemma_header_map_domain(u, k);
        lemma_header_map_domain(hs, k);
        if exists|i: int| 0 <= i < u.len() && #[trigger] u[i].0@ == k {
            let i = choose|i: int| 0 <= i < u.len() && #[trigger] u[i].0@ == k;
            if i != j {
                assert(hs[i].0@ == k);
            }
        }
        if exists|i: int| 0 <= i < hs.len() && #[trigger] hs[i].0@ == k {
            let i = choose|i: int| 0 <= i < hs.len() && #[trigger] hs[i].0@ == k;
            assert(u[i].0@ == k);
        }
        if k == x.0@ {
            assert(u[j].0@ == k);
        }
    }
    assert forall|k: Seq<char>| #[trigger] header_map(u).contains_key(k) implies header_map(u)[k]
        == header_map(hs).insert(x.0@, x.1@)[k] by {
        lemma_header_map_domain(u, k);
        let i = choose|i: int| 0 <= i < u.len() && #[trigger] u[i].0@ == k;
        lemma_header_map_value(u, i);
        if i != j {
            lemma_header_map_value(hs, i);
        }
    }
}

/// Whether every byte of a header value is header text.
pub fn header_value_is_text(value: &[u8]) -> (r: bool)
    ensures
        r == is_header_text(value@),
{
    let mut i: usize = 0;
    while i < value.len()
        invariant
            i <= value@.len(),
            forall|j: int| 0 <= j < i ==> is_header_text_byte(#[trigger] value@[j]),
        decreases value@.len() - i,
    {
        let b = value[i];
        if !((32 <= b && b < 127) || b == 9) {
            return false;
        }
        i = i + 1;
    }
    true
}

/// Finds the position of the header named `name`.
fn find_header(hs: &Vec<(String, String)>, name: &String) -> (r: Option<usize>)
    ensures
        r matches Some(j) ==> j < hs@.len() && hs@[j as int].0@ == name@,
        r is None ==> forall|j: int| 0 <= j < hs@.len() ==> #[trigger] hs@[j].0@ != name@,
{
    let mut j: usize = 0;
    while j < hs.len()
        invariant
            j <= hs@.len(),
            forall|a: int| 0 <= a < j ==> #[trigger] hs@[a].0@ != name@,
        decreases hs@.len() - j,
    {
        if hs[j].0 == *name {
            return Some(j);
        }
        j = j + 1;
    }
    None
}

/// The headers of the remote server's reply that can be passed on: those
/// whose value is header text, read as characters, one per name, the last of
/// a name winning.
pub fn reply_headers(raw: &Vec<(String, Vec<u8>)>) -> (r: Vec<(String, String)>)
    ensures
        header_names_distinct(r@),
        header_map(r@) == readable_headers(raw@),
{
    let mut out: Vec<(String, String)> = Vec::new();
    let mut i: usize = 0;
    while i < raw.len()
        invariant
            i <= raw@.len(),
            header_names_distinct(out@),
            header_map(out@) == readable_headers(raw@.subrange(0, i as int)),
        decreases raw@.len() - i,
    {
        proof {
            assert(raw@.subrange(0, i + 1).drop_last() =~= raw@.subrange(0, i as int));
            assert(raw@.subrange(0, i + 1).last() == raw@[i as int]);
        }
        let name = &raw[i].0;
        let value = &raw[i].1;
        if header_value_is_text(value.as_slice()) {
            let text = ascii_text(value.as_slice());
            let entry = (name.clone(), text);
            let ghost before = out@;
            match find_header(&out, name) {
                Some(j) => {
                    out.set(j, entry);
                    proof {
                        lemma_header_map_update(before, j as int, entry);
                        assert(out@ == before.update(j as int, entry));
                    }
                },
                None => {
                    out.push(entry);
                    proof {
                        assert(out@.drop_last() =~= before);
                        assert forall|a: int, b: int| 0 <= a < b < out@.len() implies #[trigger] out@[a].0@
                            != #[trigger] out@[b].0@ by {
                            if b < before.len() {
                                assert(before[a].0@ != before[b].0@);
                            }
                        }
                    }
                },
            }
        }
        i = i + 1;
    }
    proof {
        assert(raw@.subrange(0, raw@.len() as int) =~= raw@);
    }
    out
}

/// The answer built from the remote server's reply: its status, its readable
/// headers (see `reply_headers`) and its body, or an empty body when the body
/// could not be read.
pub fn proxy_success_response(
    id: String,
    status_code: u16,
    raw_headers: &Vec<(String, Vec<u8>)>,
    body: Option<Vec<u8>>,
) -> (r: HttpProxyResponse)
    ensures
        r.message_type@ == "http_proxy_response"@,
        r.id == id,
        r.status_code == status_code,
        header_names_distinct(r.headers@),
        header_map(r.headers@) == readable_headers(raw_headers@),
        r.body@ == (match body {
            Some(b) => b@,
            None => Seq::<u8>::empty(),
        }),
{
    let headers = reply_headers(raw_headers);
    let body = match body {
        Some(b) => b,
        None => Vec::new(),
    };
    HttpProxyResponse { message_type: "http_proxy_response".to_owned(), id, status_code, headers, body }
}

/// The answer when the remote request could not be made (502), carrying the
/// error's text.
pub fn proxy_failure_response(id: String, error_text: &str) -> (r: HttpProxyResponse)
    ensures
        plain_response(r, id@, 502, vstd::utf8::encode_utf8("Proxy error: "@ + error_text@)),
{
    let mut message = "Proxy error: ".to_owned();
    message.append(error_text);
    plain(id, 502, utf8_bytes(message.as_str()))
}

} // verus!
