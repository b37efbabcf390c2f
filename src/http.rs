use vstd::prelude::*;

use crate::json_text::{parse_agrees, parse_payload};
use crate::payload::{Payload, accepted, ingest_spec};
use crate::store::{IngestError, Store};
use crate::text::{
    all_digits,
    contains,
    contains_exec,
    decimal,
    parse_decimal,
    same_text,
    slice_text,
    starts_with,
    starts_with_exec,
    word,
    word_at,
    word_from,
    word_from_exec,
};

verus! {

/// A method of the HTTP-like protocol.
#[allow(non_camel_case_types)]
#[derive(Debug, Clone, Copy, PartialEq, Eq, Structural)]
pub enum HttpMethods {
    POST,
    GET,
    DELETE,
    PATCH,
}

impl Default for HttpMethods {
    fn default() -> (r: HttpMethods)
        ensures
            r == HttpMethods::POST,
    {
        HttpMethods::POST
    }
}

/// The method that a word names, if any.
pub open spec fn method_named(w: Seq<char>) -> Option<HttpMethods> {
    if w == "POST"@ {
        Some(HttpMethods::POST)
    } else if w == "GET"@ {
        Some(HttpMethods::GET)
    } else if w == "DELETE"@ {
        Some(HttpMethods::DELETE)
    } else if w == "PATCH"@ {
        Some(HttpMethods::PATCH)
    } else {
        None
    }
}

impl HttpMethods {
    /// The method that `name` names, if any.
    pub fn from_name(name: &str) -> (r: Option<HttpMethods>)
        ensures
            r == method_named(name@),
    {
        if same_text(name, "POST") {
            Some(HttpMethods::POST)
        } else if same_text(name, "GET") {
            Some(HttpMethods::GET)
        } else if same_text(name, "DELETE") {
            Some(HttpMethods::DELETE)
        } else if same_text(name, "PATCH") {
            Some(HttpMethods::PATCH)
        } else {
            None
        }
    }

    /// The method that `string` names; it must name one.
    pub fn from(string: String) -> (r: HttpMethods)
        requires
            method_named(string@) is Some,
        ensures
            method_named(string@) == Some(r),
    {
        Self::from_name(string.as_str()).unwrap()
    }
}

/// What a header line leads to.
#[derive(Debug, Clone, Copy, PartialEq, Eq, Structural)]
pub enum HttpStep {
    /// More header lines are wanted.
    Continue,
    /// The headers are over: the request can be answered.
    Complete,
    /// The line cannot be read: the request fails.
    Malformed,
}

/// A request as far as its header lines have been read.
pub struct HttpRequest {
    pub method: HttpMethods,
    pub key: String,
    pub content_length: Option<usize>,
}

/// The key that a request path names: the path without its leading slash.
pub open spec fn key_of_path(path: Seq<char>) -> Seq<char> {
    if path.len() > 0 && path[0] == '/' {
        path.subrange(1, path.len() as int)
    } else {
        path
    }
}

/// The length of `Content-Length:`.
pub const LENGTH_PREFIX_LEN: usize = 15;

/// The number that a length field writes: decimal digits after an optional
/// `+`, fitting a `usize`.
pub open spec fn length_value(w: Seq<char>) -> Option<usize> {
    let d = if w.len() > 0 && w[0] == '+' {
        w.subrange(1, w.len() as int)
    } else {
        w
    };
    if all_digits(d) && decimal(d) <= usize::MAX {
        Some(decimal(d) as usize)
    } else {
        None
    }
}

/// Reads a length field.
fn parse_length(w: &str) -> (r: Option<usize>)
    ensures
        r == length_value(w@),
{
    let n = w.unicode_len();
    if n > 0 && w.get_char(0) == '+' {
        parse_decimal(slice_text(w, 1, n).as_str())
    } else {
        parse_decimal(w)
    }
}

/// A request after one more header line, and what that line leads to. A
/// length field holds one number and nothing else but blanks.
pub open spec fn feed_spec(
    method: HttpMethods,
    key: Seq<char>,
    length: Option<usize>,
    line: Seq<char>,
) -> (HttpMethods, Seq<char>, Option<usize>, HttpStep) {
    if line == "\r\n"@ {
        (method, key, length, HttpStep::Complete)
    } else if starts_with(line, "Content-Length:"@) {
        match (word_from(line, LENGTH_PREFIX_LEN as int, 0), word_from(line, LENGTH_PREFIX_LEN as int, 1)) {
            (Some(w), None) => match length_value(w) {
                Some(v) => (method, key, Some(v), HttpStep::Continue),
                None => (method, key, length, HttpStep::Malformed),
            },
            _ => (method, key, length, HttpStep::Malformed),
        }
    } else if contains(line, "HTTP/"@) {
        match (word(line, 0), word(line, 1)) {
            (Some(m), Some(p)) => match method_named(m) {
                Some(mt) => (mt, key_of_path(p), length, HttpStep::Continue),
                None => (method, key, length, HttpStep::Malformed),
            },
            _ => (method, key, length, HttpStep::Malformed),
        }
    } else {
        (method, key, length, HttpStep::Continue)
    }
}

/// The reply to a request, and the store after it, where `parsed` is what the
/// body of a `POST` parsed to (`None` for a text that is not JSON).
pub open spec fn http_spec(
    m: Map<Seq<char>, Seq<char>>,
    method: HttpMethods,
    key: Seq<char>,
    parsed: Option<Payload>,
) -> (Map<Seq<char>, Seq<char>>, Seq<char>) {
    match method {
        HttpMethods::GET => if m.contains_key(key) {
            (m, "HTTP/1.1 200 OK\r\n\r\n"@ + m[key])
        } else {
            (m, "HTTP/1.1 404 Not Found"@)
        },
        HttpMethods::POST => match parsed {
            Some(p) => (ingest_spec(m, key, p), "HTTP/1.1 202 Accepted"@),
            None => (m, "HTTP/1.1 400 Bad Request"@),
        },
        HttpMethods::DELETE => (m.remove(key), "HTTP/1.1 202 Accepted"@),
        HttpMethods::PATCH => (m, "HTTP/1.1 400 Bad Request"@),
    }
}

/// The key of the path in a request line.
fn key_from_path(path: &str) -> (r: String)
    ensures
        r@ == key_of_path(path@),
{
    let n = path.unicode_len();
    if n > 0 && path.get_char(0) == '/' {
        slice_text(path, 1, n)
    } else {
        slice_text(path, 0, n)
    }
}

/// The reply to a request that could not be read.
pub fn bad_request() -> (r: String)
    ensures
        r@ == "HTTP/1.1 400 Bad Request"@,
{
    String::from_str("HTTP/1.1 400 Bad Request")
}

/// The reply when the connection failed while the request was read.
pub fn internal_error() -> (r: String)
    ensures
        r@ == "HTTP/1.1 500 Internal Server Error"@,
{
    String::from_str("HTTP/1.1 500 Internal Server Error")
}

impl HttpRequest {
    /// A request before any header line: a `POST` to the empty key with no
    /// length.
    pub fn new() -> (r: HttpRequest)
        ensures
            r.method == HttpMethods::POST,
            r.key@ == Seq::<char>::empty(),
            r.content_length is None,
    {
        HttpRequest { method: HttpMethods::POST, key: String::new(), content_length: None }
    }

    /// Reads one header line into the request.
    pub fn feed(&mut self, line: &str) -> (r: HttpStep)
        ensures
            (final(self).method, final(self).key@, final(self).content_length, r) == feed_spec(
                old(self).method,
                old(self).key@,
                old(self).content_length,
                line@,
            ),
    {
        if same_text(line, "\r\n") {
            return HttpStep::Complete;
        }
        if starts_with_exec(line, "Content-Length:") {
            proof {
                reveal_strlit("Content-Length:");
            }
            let w = word_from_exec(line, LENGTH_PREFIX_LEN, 0);
            let extra = word_from_exec(line, LENGTH_PREFIX_LEN, 1);
            match (w, extra) {
                (Some(w), None) => match parse_length(w.as_str()) {
                    Some(v) => {
                        self.content_length = Some(v);
                        HttpStep::Continue
                    },
                    None => HttpStep::Malformed,
                },
                _ => HttpStep::Malformed,
            }
        } else if contains_exec(line, "HTTP/") {
            match (word_at(line, 0), word_at(line, 1)) {
                (Some(m), Some(p)) => match HttpMethods::from_name(m.as_str()) {
                    Some(mt) => {
                        self.method = mt;
                        self.key = key_from_path(p.as_str());
                        HttpStep::Continue
                    },
                    None => HttpStep::Malformed,
                },
                _ => HttpStep::Malformed,
            }
        } else {
            HttpStep::Continue
        }
    }

    /// How many bytes of body to read once the headers are over: the
    /// announced length for a `POST`, else none.
    pub fn body_length(&self) -> (r: usize)
        ensures
            r == (match (self.method, self.content_length) {
                (HttpMethods::POST, Some(n)) => n,
                _ => 0,
            }),
    {
        match (self.method, self.content_length) {
            (HttpMethods::POST, Some(n)) => n,
            _ => 0,
        }
    }

    /// Answers the request, where `parsed` is what the body of a `POST` parsed
    /// to. Beside the reply comes the report of a stored value part of which
    /// was dropped.
    pub fn respond_parsed(&self, store: &mut Store, parsed: Option<Payload>) -> (r: (
        String,
        Result<(), IngestError>,
    ))
        requires
            old(store).wf(),
        ensures
            final(store).wf(),
            (final(store)@, r.0@) == http_spec(old(store)@, self.method, self.key@, parsed),
            r.1 is Err <==> post_rejects(self.method, parsed),
    {
        match self.method {
            HttpMethods::GET => match store.get(&self.key) {
                Some(t) => (String::from_str("HTTP/1.1 200 OK\r\n\r\n").concat(t.as_str()), Ok(())),
                None => (String::from_str("HTTP/1.1 404 Not Found"), Ok(())),
            },
            HttpMethods::POST => match parsed {
                Some(p) => {
                    let report = store.ingest(&self.key, &p);
                    (String::from_str("HTTP/1.1 202 Accepted"), report)
                },
                None => (bad_request(), Ok(())),
            },
            HttpMethods::DELETE => {
                store.delete(&self.key);
                (String::from_str("HTTP/1.1 202 Accepted"), Ok(()))
            },
            HttpMethods::PATCH => (bad_request(), Ok(())),
        }
    }

    /// Answers the request, reading `body` as JSON for a `POST`. Beside the
    /// reply comes the report of a stored value part of which was dropped.
    pub fn respond(&self, store: &mut Store, body: &str) -> (r: (String, Result<(), IngestError>))
        requires
            old(store).wf(),
        ensures
            final(store).wf(),
            exists|p: Option<Payload>|
                (self.method == HttpMethods::POST ==> parse_agrees(body@, p)) && http_spec(
                    old(store)@,
                    self.method,
                    self.key@,
                    p,
                ) == (final(store)@, r.0@) && (r.1 is Err <==> post_rejects(self.method, p)),
    {
        let parsed = match self.method {
            HttpMethods::POST => parse_payload(body),
            _ => None,
        };
        self.respond_parsed(store, parsed)
    }
}

/// Whether a request drops part of the value that it stores.
pub open spec fn post_rejects(method: HttpMethods, parsed: Option<Payload>) -> bool {
    method == HttpMethods::POST && match parsed {
        Some(p) => !accepted(p),
        None => false,
    }
}

} // verus!
