//! The client's side of the exchange with the daemon: one HTTP request per connection.

use vstd::prelude::*;
use vstd::utf8::*;
use crate::api;
use crate::api::{limit_priority, SubmitRequest};
use crate::job_id;
use crate::job_id::id_string;
use crate::output;
use crate::output::lossy_string;
use crate::text;
use crate::url;
use crate::url::{Url, UrlView};

verus! {

/// Where to connect to, and what to send.
#[derive(Debug)]
pub struct Exchange {
    pub addr: String,
    pub request: String,
}

/// The address to connect to for a URL: its host, and its port or 80.
pub open spec fn addr_text(u: UrlView) -> Seq<char> {
    u.host + ":"@ + text::decimal(
        match u.port {
            Some(p) => p as nat,
            None => 80,
        },
    )
}

/// The path to ask for: that of the URL, or `/` where it has none.
pub open spec fn path_text(u: UrlView) -> Seq<char> {
    if u.path.len() == 0 {
        "/"@
    } else {
        u.path
    }
}

/// The first lines of a request: the method, the path and the host.
pub open spec fn head_text(method: Seq<char>, u: UrlView) -> Seq<char> {
    method + path_text(u) + " HTTP/1.1\r\nHost: "@ + u.host + "\r\n"@
}

/// A request without a body.
pub open spec fn bare_request(method: Seq<char>, u: UrlView) -> Seq<char> {
    head_text(method, u) + "Connection: close\r\n\r\n"@
}

/// A request with a JSON body, preceded by the body's length in bytes.
pub open spec fn body_request(method: Seq<char>, u: UrlView, body: Seq<char>) -> Seq<char> {
    head_text(method, u) + "Content-Type: application/json\r\nContent-Length: "@ + text::decimal(
        output::byte_len(body),
    ) + "\r\nConnection: close\r\n\r\n"@ + body
}

/// Whether a result is the exchange for a URL: with the URL's address and the given request,
/// or the error of a URL that cannot be read.
pub open spec fn is_exchange(
    res: Result<Exchange, String>,
    u: Option<UrlView>,
    request: spec_fn(UrlView) -> Seq<char>,
) -> bool {
    match u {
        Some(u) => {
            &&& res is Ok
            &&& res->Ok_0.addr@ == addr_text(u)
            &&& res->Ok_0.request@ == request(u)
        },
        None => res is Err && res->Err_0@ == "Invalid URL"@,
    }
}

fn read_url(url: &str) -> (res: Result<Url, String>)
    ensures
        match res {
            Ok(u) => url::parsed(url@) == Some(u@),
            Err(e) => url::parsed(url@) is None && e@ == "Invalid URL"@,
        },
{
    match Url::from_str(url) {
        Ok(u) => Ok(u),
        Err(_) => Err("Invalid URL".to_string()),
    }
}

fn address(u: &Url) -> (res: String)
    ensures
        res@ == addr_text(u@),
{
    let mut addr = match u.host_str() {
        Some(host) => host.to_string(),
        None => String::new(),
    };
    addr.append(":");
    addr.append(text::decimal_string(u.port().unwrap_or(80) as u64).as_str());
    addr
}

fn request_head(method: &str, u: &Url) -> (res: String)
    ensures
        res@ == head_text(method@, u@),
{
    let mut head = method.to_string();
    if u.path().is_empty() {
        head.append("/");
    } else {
        head.append(u.path());
    }
    head.append(" HTTP/1.1\r\nHost: ");
    head.append(u.host.as_str());
    head.append("\r\n");
    head
}

/// What to send where to get a URL.
pub fn cli_get(url: &str) -> (res: Result<Exchange, String>)
    ensures
        is_exchange(res, url::parsed(url@), |u: UrlView| bare_request("GET "@, u)),
{
    match read_url(url) {
        Ok(u) => {
            let mut request = request_head("GET ", &u);
            request.append("Connection: close\r\n\r\n");
            Ok(Exchange { addr: address(&u), request })
        },
        Err(e) => Err(e),
    }
}

/// What to send where to post a JSON body to a URL.
pub fn cli_post(url: &str, body: &str) -> (res: Result<Exchange, String>)
    ensures
        is_exchange(res, url::parsed(url@), |u: UrlView| body_request("POST "@, u, body@)),
{
    match read_url(url) {
        Ok(u) => {
            let mut request = request_head("POST ", &u);
            request.append("Content-Type: application/json\r\nContent-Length: ");
            request.append(text::decimal_string(body.as_bytes().len() as u64).as_str());
            request.append("\r\nConnection: close\r\n\r\n");
            request.append(body);
            Ok(Exchange { addr: address(&u), request })
        },
        Err(e) => Err(e),
    }
}

/// What to send where to delete a URL.
pub fn cli_delete(url: &str) -> (res: Result<Exchange, String>)
    ensures
        is_exchange(res, url::parsed(url@), |u: UrlView| bare_request("DELETE "@, u)),
{
    match read_url(url) {
        Ok(u) => {
            let mut request = request_head("DELETE ", &u);
            request.append("Connection: close\r\n\r\n");
            Ok(Exchange { addr: address(&u), request })
        },
        Err(e) => Err(e),
    }
}

/// The body of a response: what follows its first empty line; all of it where it has none.
pub open spec fn body_of(response: Seq<char>) -> Seq<char> {
    match text::first_match(response, "\r\n\r\n"@, 0) {
        Some(p) => response.skip(p + 4),
        None => response,
    }
}

/// What follows the first empty line of a response is its body, whatever it is.
pub proof fn law_body_is_found(head: Seq<char>, body: Seq<char>)
    requires
        forall|i: int|
            0 <= i < head.len() ==> !#[trigger] text::stands_at(
                head + "\r\n\r\n"@ + body,
                "\r\n\r\n"@,
                i,
            ),
    ensures
        body_of(head + "\r\n\r\n"@ + body) == body,
{
    reveal_strlit("\r\n\r\n");
    let s = head + "\r\n\r\n"@ + body;
    assert(s.subrange(head.len() as int, head.len() as int + 4) == "\r\n\r\n"@);
    lemma_first_match(s, "\r\n\r\n"@, head.len() as int, 0);
    assert(s.skip(head.len() as int + 4) == body);
}

/// A place before which a pattern does not stand is the first where it stands.
proof fn lemma_first_match(s: Seq<char>, pat: Seq<char>, at: int, from: int)
    requires
        0 <= from <= at,
        text::stands_at(s, pat, at),
        forall|i: int| from <= i < at ==> !#[trigger] text::stands_at(s, pat, i),
    ensures
        text::first_match(s, pat, from) == Some(at),
    decreases at - from,
{
    if from < at {
        lemma_first_match(s, pat, at, from + 1);
    }
}

/// A request with a body ends with it, after an empty line, and the first empty line of the
/// request is that one, where neither the path nor the host holds a line break.
pub proof fn law_body_is_framed(u: UrlView, body: Seq<char>)
    requires
        !path_text(u).contains('\r'),
        !u.host.contains('\r'),
    ensures
        body_of(body_request("POST "@, u, body)) == body,
{
    reveal_strlit("POST ");
    reveal_strlit(" HTTP/1.1\r\nHost: ");
    reveal_strlit("\r\n");
    reveal_strlit("Content-Type: application/json\r\nContent-Length: ");
    reveal_strlit("\r\nConnection: close\r\n\r\n");
    reveal_strlit("\r\nConnection: close");
    reveal_strlit("\r\n\r\n");
    let digits = text::decimal(output::byte_len(body));
    text::lemma_decimal_digits(output::byte_len(body));
    let path = path_text(u);
    let a = "POST "@ + path;
    let b = a + " HTTP/1.1\r\nHost: "@;
    let c = b + u.host;
    let d = c + "\r\n"@;
    let e = d + "Content-Type: application/json\r\nContent-Length: "@;
    let f = e + digits;
    let head = f + "\r\nConnection: close"@;
    let s = head + "\r\n\r\n"@ + body;
    assert("\r\nConnection: close\r\n\r\n"@ == "\r\nConnection: close"@ + "\r\n\r\n"@);
    assert(s == body_request("POST "@, u, body));
    // A carriage return inside the head stands before a line feed and a letter.
    assert forall|i: int| 0 <= i < head.len() implies !#[trigger] text::stands_at(
        s,
        "\r\n\r\n"@,
        i,
    ) by {
        if text::stands_at(s, "\r\n\r\n"@, i) {
            let w = s.subrange(i, i + 4);
            assert(w[0] == '\r' && w[2] == '\r');
            assert(s[i] == '\r' && s[i + 2] == '\r');
            if i < a.len() {
                assert(s[i] == a[i]);
                if i >= 5 {
                    assert(a[i] == path[i - 5]);
                }
            } else if i < b.len() {
                assert(s[i] == " HTTP/1.1\r\nHost: "@[i - a.len()]);
                assert(i == a.len() + 9);
                assert(s[i + 2] == " HTTP/1.1\r\nHost: "@[11]);
            } else if i < c.len() {
                assert(s[i] == u.host[i - b.len()]);
            } else if i < d.len() {
                assert(s[i] == "\r\n"@[i - c.len()]);
                assert(s[d.len() as int] == 'C');
            } else if i < e.len() {
                assert(s[i] == "Content-Type: application/json\r\nContent-Length: "@[i - d.len()]);
                assert(i == d.len() + 30);
                assert(s[i + 2] == "Content-Type: application/json\r\nContent-Length: "@[32]);
            } else if i < f.len() {
                assert(s[i] == digits[i - e.len()]);
                assert(text::is_digit(digits[i - e.len()]));
            } else {
                assert(s[i] == "\r\nConnection: close"@[i - f.len()]);
                assert(i == f.len());
                assert(s[i + 2] == "\r\nConnection: close"@[2]);
            }
        }
    }
    law_body_is_found(head, body);
}

/// The body of a response.
pub fn response_body(response: &str) -> (res: String)
    ensures
        res@ == body_of(response@),
{
    proof {
        reveal_strlit("\r\n\r\n");
    }
    let chars = text::to_chars(response);
    let len = chars.len();
    match text::find(&chars, &text::to_chars("\r\n\r\n")) {
        Some(p) => {
            let body = response.substring_char(p + 4, len);
            assert(body@ == response@.skip(p + 4));
            body.to_string()
        },
        None => response.to_string(),
    }
}

/// The body of a response, given its bytes. Valid UTF-8 is read as the text that it encodes.
pub fn read_response(bytes: &[u8]) -> (res: String)
    ensures
        res@ == body_of(output::utf8_lossy(bytes@)),
        valid_utf8(bytes@) ==> res@ == body_of(decode_utf8(bytes@)),
{
    response_body(lossy_string(bytes).as_str())
}

// The daemon's resources.

/// The URL of the status, given the daemon's.
pub fn status_endpoint(url: &str) -> (res: String)
    ensures
        res@ == url@ + "/status"@,
{
    let mut endpoint = url.to_string();
    endpoint.append("/status");
    endpoint
}

/// The URL of the jobs, given the daemon's.
pub fn jobs_endpoint(url: &str) -> (res: String)
    ensures
        res@ == url@ + "/jobs"@,
{
    let mut endpoint = url.to_string();
    endpoint.append("/jobs");
    endpoint
}

/// The URL of a job, given the daemon's.
pub fn job_endpoint(url: &str, id: u128) -> (res: String)
    ensures
        res@ == url@ + "/jobs/"@ + job_id::id_text(id),
{
    let mut endpoint = url.to_string();
    endpoint.append("/jobs/");
    endpoint.append(id_string(id).as_str());
    endpoint
}

/// The request that the client makes of its arguments; the priority is limited to the highest.
pub fn submit_request(name: String, command: String, priority: u8, timeout_secs: u64) -> (res:
    SubmitRequest)
    ensures
        res.name@ == name@,
        res.command@ == command@,
        res.priority == api::limited_priority(priority),
        res.timeout_secs == timeout_secs,
{
    SubmitRequest { name, command, priority: limit_priority(priority), timeout_secs }
}

// What is sent where.

/// The address is the host and, behind a colon, the port, which is 80 where none is given.
pub proof fn law_address(u: UrlView)
    ensures
        u.port is Some ==> addr_text(u) == u.host + ":"@ + text::decimal(u.port->0 as nat),
        u.port is None ==> addr_text(u) == u.host + ":"@ + text::decimal(80),
{
}

/// A request asks for the path of the URL and names its host; one with a body announces its length
/// in bytes and ends with it.
pub proof fn law_requests(method: Seq<char>, u: UrlView, body: Seq<char>)
    requires
        u.path.len() > 0,
    ensures
        bare_request(method, u) == method + u.path + " HTTP/1.1\r\nHost: "@ + u.host + "\r\n"@
            + "Connection: close\r\n\r\n"@,
        body_request(method, u, body) == method + u.path + " HTTP/1.1\r\nHost: "@ + u.host
            + "\r\n"@ + "Content-Type: application/json\r\nContent-Length: "@ + text::decimal(
            encode_utf8(body).len(),
        ) + "\r\nConnection: close\r\n\r\n"@ + body,
{
}

/// An exchange for a URL that can be read goes to its address with the request for it; a URL that
/// cannot be read gives an error.
pub proof fn law_exchange(
    res: Result<Exchange, String>,
    u: UrlView,
    request: spec_fn(UrlView) -> Seq<char>,
)
    ensures
        is_exchange(res, None, request) ==> res is Err && res->Err_0@ == "Invalid URL"@,
        is_exchange(res, Some(u), request) ==> res is Ok && res->Ok_0.request@ == request(u)
            && res->Ok_0.addr@ == addr_text(u),
{
}

/// The body of a response is what follows the first empty line at `p`; where the response has no
/// empty line, it is all of it.
pub proof fn law_body(response: Seq<char>, p: int)
    ensures
        (forall|i: int|
            0 <= i && i + 4 <= response.len() ==> #[trigger] response.subrange(i, i + 4) != seq![
                '\r',
                '\n',
                '\r',
                '\n',
            ]) ==> body_of(response) == response,
        0 <= p && p + 4 <= response.len() && response.subrange(p, p + 4) == seq![
            '\r',
            '\n',
            '\r',
            '\n',
        ] && (forall|i: int|
            0 <= i < p ==> #[trigger] response.subrange(i, i + 4) != seq!['\r', '\n', '\r', '\n'])
            ==> body_of(response) == response.skip(p + 4),
{
    reveal_strlit("\r\n\r\n");
    assert("\r\n\r\n"@ == seq!['\r', '\n', '\r', '\n']);
    text::law_first_match(response, "\r\n\r\n"@, 0);
    let found = text::first_match(response, "\r\n\r\n"@, 0);
    if found is Some {
        let q = found->0;
        assert(response.subrange(q, q + 4) == "\r\n\r\n"@);
        if 0 <= p < q {
            assert(response.subrange(p, p + "\r\n\r\n"@.len()) != "\r\n\r\n"@);
        }
    } else if 0 <= p && p + 4 <= response.len() {
        assert(response.subrange(p, p + "\r\n\r\n"@.len()) != "\r\n\r\n"@);
    }
}

/// The daemon's resources stand below its URL, each under its own name.
pub proof fn law_endpoints(url: &str, id: u128, res: String)
    ensures
        call_ensures(status_endpoint, (url,), res) ==> res@ == url@ + "/status"@,
        call_ensures(jobs_endpoint, (url,), res) ==> res@ == url@ + "/jobs"@,
        call_ensures(job_endpoint, (url, id), res) ==> res@ == url@ + "/jobs/"@ + job_id::id_text(id),
{
}

} // verus!
