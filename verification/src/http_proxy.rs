//! The HTTP proxy's own logic: routing `/t/{uuid}/{path}` to an endpoint,
//! writing the forwarded HTTP/1.1 request, and reading the tunnelled response.
use vstd::prelude::*;
use vstd::string::StrSliceExecFns;
use vstd::utf8::encode_utf8;
use crate::handshake::is_hyphenated_uuid;

verus! {

/// Position of the first `/` in `s`, or -1 if there is none.
pub open spec fn first_slash(s: Seq<char>) -> int
    decreases s.len(),
{
    if s.len() == 0 {
        -1
    } else if s[0] == '/' {
        0
    } else {
        let r = first_slash(s.drop_first());
        if r < 0 {
            -1
        } else {
            r + 1
        }
    }
}

/// The UUID and the forwarded path of the route suffix `s`: split at the first `/`,
/// which starts the path; with no `/`, all of `s` is the UUID and the path is `/`.
pub open spec fn split_route(s: Seq<char>) -> (Seq<char>, Seq<char>) {
    let i = first_slash(s);
    if i >= 0 {
        (s.take(i), s.skip(i))
    } else {
        (s, seq!['/'])
    }
}

proof fn lemma_first_slash_at(s: Seq<char>, i: int)
    requires
        0 <= i < s.len(),
        s[i] == '/',
        forall|j: int| 0 <= j < i ==> s[j] != '/',
    ensures
        first_slash(s) == i,
    decreases s.len(),
{
    if i > 0 {
        let t = s.drop_first();
        assert forall|j: int| 0 <= j < i - 1 implies t[j] != '/' by {
            assert(t[j] == s[j + 1]);
        }
        lemma_first_slash_at(t, i - 1);
    }
}

proof fn lemma_no_slash(s: Seq<char>)
    requires
        forall|j: int| 0 <= j < s.len() ==> s[j] != '/',
    ensures
        first_slash(s) == -1,
    decreases s.len(),
{
    if s.len() > 0 {
        let t = s.drop_first();
        assert forall|j: int| 0 <= j < t.len() implies t[j] != '/' by {
            assert(t[j] == s[j + 1]);
        }
        lemma_no_slash(t);
    }
}

/// Split the route suffix after `/t/` into the endpoint's UUID and the path to
/// forward: `"uuid/a/b"` gives `("uuid", "/a/b")`, `"uuid"` gives `("uuid", "/")`.
pub fn split_tunnel_path(rest: &str) -> (res: (String, String))
    ensures
        (res.0@, res.1@) == split_route(rest@),
{
    let n = rest.unicode_len();
    let mut i: usize = 0;
    while i < n
        invariant
            n == rest@.len(),
            i <= n,
            forall|j: int| 0 <= j < i ==> rest@[j] != '/',
        decreases n - i,
    {
        if rest.get_char(i) == '/' {
            proof {
                lemma_first_slash_at(rest@, i as int);
            }
            let uuid = rest.substring_char(0, i).to_owned();
            let path = rest.substring_char(i, n).to_owned();
            proof {
                assert(path@ =~= rest@.skip(i as int));
                assert(uuid@ =~= rest@.take(i as int));
            }
            return (uuid, path);
        }
        i = i + 1;
    }
    proof {
        lemma_no_slash(rest@);
    }
    let mut path = String::new();
    path.append("/");
    proof {
        reveal_strlit("/");
        assert(path@ =~= seq!['/']);
    }
    (rest.to_owned(), path)
}

/// A request to an endpoint's URL reaches that endpoint: when `uuid` holds no `/`,
/// the route suffix `uuid/path` splits into `uuid` and `/path`, and a bare `uuid`
/// into `uuid` and `/`.
pub proof fn law_route_reaches_endpoint(uuid: Seq<char>, path: Seq<char>)
    requires
        forall|j: int| 0 <= j < uuid.len() ==> uuid[j] != '/',
    ensures
        split_route(uuid + seq!['/'] + path) == (uuid, seq!['/'] + path),
        split_route(uuid) == (uuid, seq!['/']),
{
    let s = uuid + seq!['/'] + path;
    assert(s[uuid.len() as int] == '/');
    assert forall|j: int| 0 <= j < uuid.len() implies s[j] != '/' by {
        assert(s[j] == uuid[j]);
    }
    lemma_first_slash_at(s, uuid.len() as int);
    assert(s.take(uuid.len() as int) =~= uuid);
    assert(s.skip(uuid.len() as int) =~= seq!['/'] + path);
    lemma_no_slash(uuid);
}


/// The bytes ` HTTP/1.1\r\n` that end a request line.
pub open spec fn http11_line_end() -> Seq<u8> {
    seq![32u8, 72u8, 84u8, 84u8, 80u8, 47u8, 49u8, 46u8, 49u8, 13u8, 10u8]
}

/// The bytes `Connection: close\r\n\r\n` that end the forwarded head.
pub open spec fn connection_close_end() -> Seq<u8> {
    seq![
        67u8, 111u8, 110u8, 110u8, 101u8, 99u8, 116u8, 105u8, 111u8, 110u8, 58u8, 32u8, 99u8, 108u8,
        111u8, 115u8, 101u8, 13u8, 10u8, 13u8, 10u8,
    ]
}

/// The header name `connection`, which the proxy replaces.
pub open spec fn connection_name() -> Seq<char> {
    seq!['c', 'o', 'n', 'n', 'e', 'c', 't', 'i', 'o', 'n']
}

/// `name: value\r\n` for each header but `connection`, in order.
pub open spec fn header_lines(hs: Seq<(String, Vec<u8>)>) -> Seq<u8>
    decreases hs.len(),
{
    if hs.len() == 0 {
        Seq::empty()
    } else {
        let prev = header_lines(hs.drop_last());
        let h = hs.last();
        if h.0@ == connection_name() {
            prev
        } else {
            prev + encode_utf8(h.0@) + seq![58u8, 32u8] + h.1@ + seq![13u8, 10u8]
        }
    }
}

/// The request target: the forwarded path, then `?` and the query if there is one.
pub open spec fn request_target(path: Seq<char>, query: Option<Seq<char>>) -> Seq<u8> {
    encode_utf8(path) + match query {
        Some(q) => seq![63u8] + encode_utf8(q),
        None => Seq::empty(),
    }
}

/// The raw HTTP/1.1 request sent through the tunnel: the request line, the client's
/// headers but `connection`, `Connection: close`, a blank line and the body.
pub open spec fn forwarded_request(
    method: Seq<char>,
    path: Seq<char>,
    query: Option<Seq<char>>,
    headers: Seq<(String, Vec<u8>)>,
    body: Seq<u8>,
) -> Seq<u8> {
    encode_utf8(method) + seq![32u8] + request_target(path, query) + http11_line_end() + header_lines(
        headers,
    ) + connection_close_end() + body
}

fn append_bytes(v: &mut Vec<u8>, s: &[u8])
    ensures
        final(v)@ == old(v)@ + s@,
{
    v.extend_from_slice(s);
    assert(final(v)@ =~= old(v)@ + s@);
}

/// Write the request that the proxy forwards through the tunnel.
pub fn forward_request(
    method: &str,
    path: &str,
    query: Option<&str>,
    headers: &Vec<(String, Vec<u8>)>,
    body: &[u8],
) -> (raw: Vec<u8>)
    ensures
        raw@ == forwarded_request(
            method@,
            path@,
            match query {
                Some(q) => Some(q@),
                None => None,
            },
            headers@,
            body@,
        ),
{
    let mut raw: Vec<u8> = Vec::new();
    append_bytes(&mut raw, method.as_bytes());
    raw.push(32u8);
    append_bytes(&mut raw, path.as_bytes());
    match query {
        Some(q) => {
            raw.push(63u8);
            append_bytes(&mut raw, q.as_bytes());
        },
        None => {},
    }
    let line_end: Vec<u8> = vec![32u8, 72u8, 84u8, 84u8, 80u8, 47u8, 49u8, 46u8, 49u8, 13u8, 10u8];
    append_bytes(&mut raw, line_end.as_slice());
    let ghost head = raw@;
    proof {
        let qv = match query {
            Some(q) => Some(q@),
            None => None,
        };
        assert(head =~= encode_utf8(method@) + seq![32u8] + request_target(path@, qv) + http11_line_end());
    }
    let connection = "connection".to_owned();
    proof {
        reveal_strlit("connection");
        assert(connection@ =~= connection_name());
    }
    let n = headers.len();
    for i in 0..n
        invariant
            n == headers@.len(),
            connection@ == connection_name(),
            raw@ == head + header_lines(headers@.take(i as int)),
    {
        proof {
            assert(headers@.take(i as int + 1).drop_last() =~= headers@.take(i as int));
        }
        let name = &headers[i].0;
        if *name != connection {
            append_bytes(&mut raw, name.as_str().as_bytes());
            raw.push(58u8);
            raw.push(32u8);
            append_bytes(&mut raw, headers[i].1.as_slice());
            raw.push(13u8);
            raw.push(10u8);
            proof {
                let h = headers@[i as int];
                assert(raw@ =~= head + header_lines(headers@.take(i as int)) + encode_utf8(h.0@) + seq![
                    58u8,
                    32u8,
                ] + h.1@ + seq![13u8, 10u8]);
            }
        }
    }
    proof {
        assert(headers@.take(n as int) =~= headers@);
    }
    let close_end: Vec<u8> = vec![
        67u8, 111u8, 110u8, 110u8, 101u8, 99u8, 116u8, 105u8, 111u8, 110u8, 58u8, 32u8, 99u8, 108u8,
        111u8, 115u8, 101u8, 13u8, 10u8, 13u8, 10u8,
    ];
    append_bytes(&mut raw, close_end.as_slice());
    append_bytes(&mut raw, body);
    proof {
        let qv = match query {
            Some(q) => Some(q@),
            None => None,
        };
        assert(raw@ =~= forwarded_request(method@, path@, qv, headers@, body@));
    }
    raw
}


/// The response the proxy gives its HTTP client.
#[derive(Debug)]
pub struct ProxyResponse {
    /// Status code, always in `100..=999`.
    pub status: u16,
    /// Header names and values, in order.
    pub headers: Vec<(String, Vec<u8>)>,
    pub body: Vec<u8>,
}

/// The head of an HTTP response as the parser saw it.
#[derive(Debug)]
pub struct ResponseHead {
    /// The status code, if the parser recorded one.
    pub code: Option<u16>,
    /// Header names and values, in order.
    pub headers: Vec<(String, Vec<u8>)>,
    /// Length of the head; the body starts there.
    pub body_offset: usize,
}

/// The header names' and values' contents.
pub open spec fn header_views(hs: Seq<(String, Vec<u8>)>) -> Seq<(Seq<char>, Seq<u8>)> {
    Seq::new(hs.len(), |i: int| (hs[i].0@, hs[i].1@))
}

/// What the response parser made of the bytes.
#[derive(Debug)]
pub enum HeadParse {
    /// The head is complete.
    Complete(ResponseHead),
    /// The bytes end before the head does.
    Partial,
    /// The bytes are not an HTTP response head.
    Invalid,
}

/// What `httparse` makes of `data` as a response, with room for 64 headers: the
/// status code, headers and head length when the head is complete (`Ok(Some(..))`),
/// `Ok(None)` when the head is incomplete, `Err(())` when it is malformed.
pub uninterp spec fn httparse_response_head(data: Seq<u8>) -> Result<Option<(Option<u16>, Seq<(Seq<char>, Seq<u8>)>, usize)>, ()>;

/// Calls `httparse::Response::parse` on `data` with a buffer of 64 headers. Claims
/// that the result is `httparse_response_head(data)`, a function of `data` alone,
/// and that a complete head is no longer than `data` (httparse reports the number
/// of bytes of `data` the head took).
#[verifier::external_body]
fn parse_response_head(data: &[u8]) -> (res: HeadParse)
    ensures
        match res {
            HeadParse::Complete(h) => httparse_response_head(data@) matches Ok(Some((code, hs, offset))) && code
                == h.code && hs == header_views(h.headers@) && offset == h.body_offset && h.body_offset <= data@.len(),
            HeadParse::Partial => httparse_response_head(data@) matches Ok(None),
            HeadParse::Invalid => httparse_response_head(data@) is Err,
        },
{
    let mut header_buf = [httparse::EMPTY_HEADER; 64];
    let mut resp = httparse::Response::new(&mut header_buf);
    match resp.parse(data) {
        Ok(httparse::Status::Complete(body_offset)) => HeadParse::Complete(ResponseHead {
            code: resp.code,
            headers: resp.headers.iter().map(|h| (h.name.to_string(), h.value.to_vec())).collect(),
            body_offset,
        }),
        Ok(httparse::Status::Partial) => HeadParse::Partial,
        Err(_) => HeadParse::Invalid,
    }
}

/// A status code that `http::StatusCode::from_u16` accepts: `100..=999`.
pub open spec fn valid_status(code: u16) -> bool {
    100 <= code <= 999
}

/// A byte that `http::HeaderValue::from_bytes` accepts: visible ASCII, space,
/// bytes from 128 up, or tab.
pub open spec fn valid_header_byte(b: u8) -> bool {
    (b >= 32 && b != 127) || b == 9
}

/// A header value that `http::HeaderValue::from_bytes` accepts.
pub open spec fn valid_header_value(v: Seq<u8>) -> bool {
    forall|i: int| 0 <= i < v.len() ==> valid_header_byte(#[trigger] v[i])
}

/// The headers whose values are valid, in order.
pub open spec fn valid_headers(hs: Seq<(Seq<char>, Seq<u8>)>) -> Seq<(Seq<char>, Seq<u8>)>
    decreases hs.len(),
{
    if hs.len() == 0 {
        Seq::empty()
    } else if valid_header_value(hs.last().1) {
        valid_headers(hs.drop_last()).push(hs.last())
    } else {
        valid_headers(hs.drop_last())
    }
}

/// The response for a tunnelled response `data`: an empty one is a 502; a complete
/// head gives its status (200 if none, 500 if out of range), its headers with valid
/// values and the bytes after the head as body; an incomplete or malformed head is
/// passed on, bytes as they came, as the body of a 200.
pub open spec fn proxied_response(data: Seq<u8>) -> (u16, Seq<(Seq<char>, Seq<u8>)>, Seq<u8>) {
    if data.len() == 0 {
        (502, Seq::empty(), Seq::empty())
    } else {
        match httparse_response_head(data) {
            Ok(Some((code, hs, offset))) => {
                let c = match code {
                    Some(c) => c,
                    None => 200u16,
                };
                (if valid_status(c) { c } else { 500 }, valid_headers(hs), data.skip(offset as int))
            },
            Ok(None) => (200, Seq::empty(), data),
            Err(_) => (200, Seq::empty(), data),
        }
    }
}

/// Whether `http::StatusCode::from_u16` accepts `code`.
pub fn is_valid_status(code: u16) -> (ok: bool)
    ensures
        ok == valid_status(code),
{
    100 <= code && code <= 999
}

/// Whether `http::HeaderValue::from_bytes` accepts `value`.
pub fn is_valid_header_value(value: &[u8]) -> (ok: bool)
    ensures
        ok == valid_header_value(value@),
{
    let n = value.len();
    for i in 0..n
        invariant
            n == value@.len(),
            forall|j: int| 0 <= j < i ==> valid_header_byte(#[trigger] value@[j]),
    {
        let b = value[i];
        if !((b >= 32 && b != 127) || b == 9) {
            return false;
        }
    }
    true
}

/// A response with an empty body.
pub fn error_resp(status: u16) -> (r: ProxyResponse)
    requires
        valid_status(status),
    ensures
        r.status == status,
        r.headers@.len() == 0,
        r.body@.len() == 0,
{
    ProxyResponse { status, headers: Vec::new(), body: Vec::new() }
}

/// The bytes of `tunnel not found\n`.
pub open spec fn not_found_body() -> Seq<u8> {
    seq![116u8, 117u8, 110u8, 110u8, 101u8, 108u8, 32u8, 110u8, 111u8, 116u8, 32u8, 102u8, 111u8, 117u8, 110u8, 100u8, 10u8]
}

/// The 404 for a UUID that is not registered.
pub fn not_found() -> (r: ProxyResponse)
    ensures
        r.status == 404,
        r.headers@.len() == 0,
        r.body@ == not_found_body(),
{
    let body: Vec<u8> = vec![116u8, 117u8, 110u8, 110u8, 101u8, 108u8, 32u8, 110u8, 111u8, 116u8, 32u8, 102u8, 111u8, 117u8, 110u8, 100u8, 10u8];
    ProxyResponse { status: 404, headers: Vec::new(), body }
}

/// Turn the bytes that came back through the tunnel into the proxy's response.
pub fn parse_http_response(data: Vec<u8>) -> (r: ProxyResponse)
    ensures
        (r.status, header_views(r.headers@), r.body@) == proxied_response(data@),
        valid_status(r.status),
{
    if data.len() == 0 {
        let r = error_resp(502);
        proof {
            assert(header_views(r.headers@) =~= Seq::<(Seq<char>, Seq<u8>)>::empty());
            assert(r.body@ =~= Seq::<u8>::empty());
        }
        return r;
    }
    match parse_response_head(data.as_slice()) {
        HeadParse::Complete(head) => {
            let code = match head.code {
                Some(c) => c,
                None => 200,
            };
            let status = if is_valid_status(code) {
                code
            } else {
                500
            };
            let ghost hs = header_views(head.headers@);
            let mut headers: Vec<(String, Vec<u8>)> = Vec::new();
            let n = head.headers.len();
            proof {
                assert(hs.take(0) =~= Seq::<(Seq<char>, Seq<u8>)>::empty());
                assert(header_views(headers@) =~= Seq::<(Seq<char>, Seq<u8>)>::empty());
            }
            for i in 0..n
                invariant
                    n == head.headers@.len(),
                    hs == header_views(head.headers@),
                    header_views(headers@) == valid_headers(hs.take(i as int)),
            {
                proof {
                    assert(hs.take(i as int + 1).drop_last() =~= hs.take(i as int));
                }
                let ghost before = headers@;
                if is_valid_header_value(head.headers[i].1.as_slice()) {
                    headers.push((head.headers[i].0.clone(), head.headers[i].1.clone()));
                    proof {
                        assert(header_views(headers@) =~= header_views(before).push(hs[i as int]));
                    }
                } else {
                    proof {
                        assert(header_views(headers@) =~= header_views(before));
                    }
                }
            }
            proof {
                assert(hs.take(n as int) =~= hs);
            }
            let mut body: Vec<u8> = Vec::new();
            let len = data.len();
            let mut j = head.body_offset;
            while j < len
                invariant
                    len == data@.len(),
                    head.body_offset <= j <= len,
                    body@ == data@.subrange(head.body_offset as int, j as int),
                decreases len - j,
            {
                body.push(data[j]);
                j = j + 1;
                proof {
                    assert(body@ =~= data@.subrange(head.body_offset as int, j as int));
                }
            }
            proof {
                assert(body@ =~= data@.skip(head.body_offset as int));
            }
            ProxyResponse { status, headers, body }
        },
        HeadParse::Partial | HeadParse::Invalid => {
            let r = ProxyResponse { status: 200, headers: Vec::new(), body: data };
            proof {
                assert(header_views(r.headers@) =~= Seq::<(Seq<char>, Seq<u8>)>::empty());
            }
            r
        },
    }
}


/// The line `name: value\r\n` that forwards header `h`.
pub open spec fn header_line(h: (String, Vec<u8>)) -> Seq<u8> {
    encode_utf8(h.0@) + seq![58u8, 32u8] + h.1@ + seq![13u8, 10u8]
}

/// The forwarded request carries every request header but `connection`, each as
/// `name: value\r\n`, in the order they came, between the request line and
/// `Connection: close`, and then the body: with no headers it is the request line,
/// `Connection: close`, a blank line and the body; one more header that is not named
/// `connection` adds its line just before `Connection: close`; one named `connection`
/// adds nothing.
pub proof fn law_forwarded_request_keeps_headers(
    method: Seq<char>,
    path: Seq<char>,
    query: Option<Seq<char>>,
    headers: Seq<(String, Vec<u8>)>,
    h: (String, Vec<u8>),
    body: Seq<u8>,
)
    ensures
        forwarded_request(method, path, query, Seq::empty(), body) == encode_utf8(method) + seq![32u8]
            + encode_utf8(path) + match query {
            Some(q) => seq![63u8] + encode_utf8(q),
            None => Seq::empty(),
        } + http11_line_end() + connection_close_end() + body,
        forwarded_request(method, path, query, headers, body) == forwarded_request(
            method,
            path,
            query,
            headers,
            Seq::empty(),
        ) + body,
        h.0@ != connection_name() ==> forwarded_request(method, path, query, headers.push(h), Seq::empty())
            == forwarded_request(method, path, query, headers, Seq::empty()).take(
            forwarded_request(method, path, query, headers, Seq::empty()).len() - 21,
        ) + header_line(h) + connection_close_end(),
        h.0@ == connection_name() ==> forwarded_request(method, path, query, headers.push(h), body)
            == forwarded_request(method, path, query, headers, body),
{
    let start = encode_utf8(method) + seq![32u8] + request_target(path, query) + http11_line_end();
    assert(header_lines(Seq::<(String, Vec<u8>)>::empty()) =~= Seq::<u8>::empty());
    assert(forwarded_request(method, path, query, Seq::empty(), body) =~= start + connection_close_end() + body);
    assert(request_target(path, query) =~= encode_utf8(path) + match query {
        Some(q) => seq![63u8] + encode_utf8(q),
        None => Seq::empty(),
    });
    let f0 = forwarded_request(method, path, query, headers, Seq::empty());
    assert(f0 =~= start + header_lines(headers) + connection_close_end());
    assert(forwarded_request(method, path, query, headers, body) =~= f0 + body);
    assert(headers.push(h).drop_last() =~= headers);
    if h.0@ != connection_name() {
        assert(f0.take(f0.len() - 21) =~= start + header_lines(headers));
        assert(forwarded_request(method, path, query, headers.push(h), Seq::empty()) =~= start + header_lines(
            headers,
        ) + header_line(h) + connection_close_end());
    } else {
        assert(forwarded_request(method, path, query, headers.push(h), body) =~= forwarded_request(
            method,
            path,
            query,
            headers,
            body,
        ));
    }
}

/// Whether a parsed header's value is one the response can carry.
pub open spec fn has_valid_value(h: (Seq<char>, Seq<u8>)) -> bool {
    valid_header_value(h.1)
}

proof fn lemma_valid_headers_filter(hs: Seq<(Seq<char>, Seq<u8>)>)
    ensures
        valid_headers(hs) == hs.filter(|h: (Seq<char>, Seq<u8>)| has_valid_value(h)),
    decreases hs.len(),
{
    broadcast use Seq::lemma_filter_push;
    if hs.len() > 0 {
        lemma_valid_headers_filter(hs.drop_last());
        assert(hs.drop_last().push(hs.last()) =~= hs);
    } else {
        reveal(Seq::filter);
    }
}

/// For a complete response head, the response passes on every parsed header whose
/// value is valid, in order and repeated names included, and no other: its headers
/// are the parsed headers with the invalid values filtered out.
pub proof fn law_response_keeps_valid_headers(data: Seq<u8>)
    requires
        data.len() > 0,
    ensures
        httparse_response_head(data) matches Ok(Some((code, hs, offset))) ==> proxied_response(data).1
            == hs.filter(|h: (Seq<char>, Seq<u8>)| has_valid_value(h)),
{
    match httparse_response_head(data) {
        Ok(Some((code, hs, offset))) => {
            lemma_valid_headers_filter(hs);
        },
        _ => {},
    }
}

/// The status and body of the proxy's response: an empty reply is a 502 with no
/// body; a complete head gives the parsed status (200 when the head names none, 500
/// when it is out of range) and the bytes after the head; an incomplete or malformed
/// head gives a 200 carrying every byte as it came, with no headers.
pub proof fn law_response_status_and_body(data: Seq<u8>)
    ensures
        data.len() == 0 ==> proxied_response(data).0 == 502 && proxied_response(data).1.len() == 0
            && proxied_response(data).2.len() == 0,
        data.len() > 0 ==> (httparse_response_head(data) matches Ok(Some((code, hs, offset))) ==> {
            &&& proxied_response(data).0 == match code {
                Some(c) => if 100 <= c <= 999 {
                    c
                } else {
                    500u16
                },
                None => 200u16,
            }
            &&& proxied_response(data).2 == data.subrange(offset as int, data.len() as int)
        }),
        data.len() > 0 && !(httparse_response_head(data) matches Ok(Some(_))) ==> proxied_response(data).0
            == 200 && proxied_response(data).1.len() == 0 && proxied_response(data).2 == data,
{
    match httparse_response_head(data) {
        Ok(Some((code, hs, offset))) => {
            assert(data.skip(offset as int) =~= data.subrange(offset as int, data.len() as int));
        },
        _ => {},
    }
}

/// The URL the server assigns an HTTP tunnel routes back to it: the route suffix of
/// `{base}/t/{uuid}` followed by any path is split into that UUID and the path.
pub proof fn law_assigned_url_routes_back(uuid: Seq<char>, path: Seq<char>)
    requires
        is_hyphenated_uuid(uuid),
    ensures
        split_route(uuid + seq!['/'] + path) == (uuid, seq!['/'] + path),
        split_route(uuid) == (uuid, seq!['/']),
{
    assert forall|j: int| 0 <= j < uuid.len() implies uuid[j] != '/' by {
        assert(uuid[j] == '-' || ('0' <= uuid[j] && uuid[j] <= '9') || ('a' <= uuid[j] && uuid[j] <= 'f'));
    }
    law_route_reaches_endpoint(uuid, path);
}

} // verus!
