//! The chat server's HTTP API as the library sees it: the request and
//! response records, the URLs of the endpoints, and how an HTTP exchange
//! turns into a result. Sending the requests is left to the caller.
use crate::chars::{chars_of, push_all, push_signed_decimal, signed_decimal, string_from};
use vstd::prelude::*;

verus! {

/// The server used when none is given.
pub const DEFAULT_SERVER: &'static str = "http://localhost:3000";

/// The body of a registration request.
pub struct RegisterRequest {
    pub username: String,
    pub password: String,
}

/// The body of a login request.
pub struct LoginRequest {
    pub username: String,
    pub password: String,
}

/// What the server answers to a successful registration or login.
pub struct AuthResponse {
    pub token: String,
    pub username: String,
}

/// The body of a request that posts a message.
pub struct SendMessageRequest {
    pub content: String,
}

/// One message as the server reports it.
#[derive(Clone)]
pub struct MessageResponse {
    pub id: String,
    pub username: String,
    pub content: String,
    pub created_at: String,
}

/// What the server answers to a failed request.
pub struct ErrorResponse {
    pub error: String,
}

/// `s` without its trailing slashes.
pub open spec fn strip_trailing_slashes(s: Seq<char>) -> Seq<char>
    decreases s.len(),
{
    if s.len() > 0 && s.last() == '/' {
        strip_trailing_slashes(s.drop_last())
    } else {
        s
    }
}

/// The base URL for `server`: the address without trailing slashes, or the
/// default server when nothing else is left.
pub open spec fn base_url_of(server: Seq<char>) -> Seq<char> {
    if strip_trailing_slashes(server).len() == 0 {
        DEFAULT_SERVER@
    } else {
        strip_trailing_slashes(server)
    }
}

/// The base URL for `server`: the address without trailing slashes, or the
/// default server when nothing else is left.
pub fn base_url(server: &str) -> (r: String)
    ensures
        r@ == base_url_of(server@),
{
    let cs = chars_of(server);
    let mut end = cs.len();
    assert(cs@.subrange(0, end as int) =~= cs@);
    while end > 0 && cs[end - 1] == '/'
        invariant
            end <= cs@.len(),
            cs@ == server@,
            strip_trailing_slashes(server@) == strip_trailing_slashes(cs@.subrange(0, end as int)),
        decreases end,
    {
        assert(cs@.subrange(0, end as int).drop_last() =~= cs@.subrange(0, end - 1));
        end -= 1;
    }
    if end == 0 {
        DEFAULT_SERVER.to_owned()
    } else {
        string_from(&cs, 0, end)
    }
}

/// How one character of a query value is written: `%`, space, `+`, `&` and
/// `=` are percent-encoded, every other character stands for itself.
pub open spec fn url_escape(c: char) -> Seq<char> {
    if c == '%' {
        seq!['%', '2', '5']
    } else if c == ' ' {
        seq!['%', '2', '0']
    } else if c == '+' {
        seq!['%', '2', 'B']
    } else if c == '&' {
        seq!['%', '2', '6']
    } else if c == '=' {
        seq!['%', '3', 'D']
    } else {
        seq![c]
    }
}

/// A query value with each of its characters escaped.
pub open spec fn url_escaped(s: Seq<char>) -> Seq<char>
    decreases s.len(),
{
    if s.len() == 0 {
        Seq::empty()
    } else {
        url_escaped(s.drop_last()) + url_escape(s.last())
    }
}

/// The value of a hexadecimal digit, or -1 for any other character.
pub open spec fn hex_value(c: char) -> int {
    let v = c as u32;
    if 48 <= v <= 57 {
        v - 48
    } else if 65 <= v <= 70 {
        v - 55
    } else if 97 <= v <= 102 {
        v - 87
    } else {
        -1
    }
}

/// Percent-decoding of a query value: `%` followed by two hexadecimal
/// digits that name an ASCII character stands for that character; every
/// other character stands for itself.
pub open spec fn percent_decoded(s: Seq<char>) -> Seq<char>
    decreases s.len(),
{
    if s.len() == 0 {
        Seq::empty()
    } else if s[0] == '%' && s.len() >= 3 && 0 <= hex_value(s[1]) < 8 && 0 <= hex_value(s[2]) {
        seq![(16 * hex_value(s[1]) + hex_value(s[2])) as char] + percent_decoded(s.skip(3))
    } else {
        seq![s[0]] + percent_decoded(s.skip(1))
    }
}

/// Whether `t` is one of the five escapes that `urlencoding` writes.
pub open spec fn is_url_escape(t: Seq<char>) -> bool {
    ||| t == seq!['%', '2', '5']
    ||| t == seq!['%', '2', '0']
    ||| t == seq!['%', '2', 'B']
    ||| t == seq!['%', '2', '6']
    ||| t == seq!['%', '3', 'D']
}

/// Minimal percent-encoding for query parameters.
pub fn urlencoding(s: &str) -> (r: String)
    ensures
        r@ == url_escaped(s@),
{
    let cs = chars_of(s);
    let mut out = String::new();
    let mut i: usize = 0;
    assert(cs@.take(0) =~= Seq::<char>::empty());
    while i < cs.len()
        invariant
            i <= cs@.len(),
            cs@ == s@,
            out@ == url_escaped(cs@.take(i as int)),
        decreases cs@.len() - i,
    {
        let c = cs[i];
        let ghost before = out@;
        if c == '%' {
            out.push('%');
            out.push('2');
            out.push('5');
        } else if c == ' ' {
            out.push('%');
            out.push('2');
            out.push('0');
        } else if c == '+' {
            out.push('%');
            out.push('2');
            out.push('B');
        } else if c == '&' {
            out.push('%');
            out.push('2');
            out.push('6');
        } else if c == '=' {
            out.push('%');
            out.push('3');
            out.push('D');
        } else {
            out.push(c);
        }
        assert(cs@.take(i + 1).drop_last() =~= cs@.take(i as int));
        assert(out@ =~= before + url_escape(c));
        i += 1;
    }
    assert(cs@.take(cs@.len() as int) =~= cs@);
    out
}

/// The URL of the endpoint at `path` on `server`.
pub open spec fn endpoint_of(server: Seq<char>, path: Seq<char>) -> Seq<char> {
    base_url_of(server) + path
}

/// The URL of the endpoint at `path` (such as `/api/login`) on `server`.
pub fn endpoint_url(server: &str, path: &str) -> (r: String)
    ensures
        r@ == endpoint_of(server@, path@),
{
    let mut url = base_url(server);
    push_all(&mut url, path);
    url
}

/// The query string of a history request: `before=` with the escaped
/// cursor and `limit=` with the count, each where given, joined by `&`
/// behind a `?`; nothing when neither is given.
pub open spec fn history_query(before: Option<Seq<char>>, limit: Option<int>) -> Seq<char> {
    match (before, limit) {
        (None, None) => Seq::empty(),
        (Some(b), None) => "?before="@ + url_escaped(b),
        (None, Some(l)) => "?limit="@ + signed_decimal(l),
        (Some(b), Some(l)) => "?before="@ + url_escaped(b) + "&limit="@ + signed_decimal(l),
    }
}

/// The cursor of a history request, as characters.
pub open spec fn before_view(before: Option<&str>) -> Option<Seq<char>> {
    match before {
        Some(b) => Some(b@),
        None => None,
    }
}

/// The count of a history request, as an integer.
pub open spec fn limit_view(limit: Option<i64>) -> Option<int> {
    match limit {
        Some(l) => Some(l as int),
        None => None,
    }
}

/// The URL that fetches message history from `server`: the messages
/// endpoint with the query for `before` and `limit`.
pub fn history_url(server: &str, before: Option<&str>, limit: Option<i64>) -> (r: String)
    ensures
        r@ == endpoint_of(server@, "/api/messages"@) + history_query(
            before_view(before),
            limit_view(limit),
        ),
{
    let mut url = endpoint_url(server, "/api/messages");
    let ghost base = url@;
    match before {
        Some(b) => {
            push_all(&mut url, "?before=");
            let enc = urlencoding(b);
            push_all(&mut url, enc.as_str());
            match limit {
                Some(l) => {
                    push_all(&mut url, "&limit=");
                    push_signed_decimal(&mut url, l);
                    assert(url@ =~= base + ("?before="@ + url_escaped(b@) + "&limit="@
                        + signed_decimal(l as int)));
                },
                None => {
                    assert(url@ =~= base + ("?before="@ + url_escaped(b@)));
                },
            }
        },
        None => {
            match limit {
                Some(l) => {
                    push_all(&mut url, "?limit=");
                    push_signed_decimal(&mut url, l);
                    assert(url@ =~= base + ("?limit="@ + signed_decimal(l as int)));
                },
                None => {
                    assert(url@ =~= base + Seq::<char>::empty());
                },
            }
        },
    }
    url
}

/// The result of an HTTP exchange that reached the server: on a success
/// status the decoded body, or the decoding failure behind "bad response: ";
/// on any other status the server's error text, or "unknown error" when the
/// error body could not be read.
pub fn resolve_response<T>(success: bool, body: Result<T, String>, error_body: Option<String>) -> (r: Result<T, String>)
    ensures
        success && body is Ok ==> r == body,
        success && body is Err ==> r is Err && r->Err_0@ == "bad response: "@ + body->Err_0@,
        !success && error_body is Some ==> r is Err && r->Err_0@ == error_body->0@,
        !success && error_body is None ==> r is Err && r->Err_0@ == "unknown error"@,
{
    if success {
        match body {
            Ok(v) => Ok(v),
            Err(e) => {
                let mut msg = "bad response: ".to_owned();
                push_all(&mut msg, e.as_str());
                Err(msg)
            },
        }
    } else {
        match error_body {
            Some(e) => Err(e),
            None => Err("unknown error".to_owned()),
        }
    }
}

/// The error text of an exchange that did not reach the server: the stage
/// that failed (such as "connection failed"), a colon, and the cause.
pub fn transport_error(stage: &str, detail: &str) -> (r: String)
    ensures
        r@ == stage@ + ": "@ + detail@,
{
    let mut msg = stage.to_owned();
    push_all(&mut msg, ": ");
    push_all(&mut msg, detail);
    msg
}

} // verus!
