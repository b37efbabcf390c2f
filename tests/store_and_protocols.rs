use gold::http::{bad_request, internal_error, HttpMethods, HttpRequest, HttpStep};
use gold::json_text::parse_payload;
use gold::payload::Payload;
use gold::resp::{handle_line as handle_line_report, process_buffer as process_buffer_report, RespCommand};
use gold::server::ServerMode;
use gold::store::{IngestError, Store};
use gold::text::{parse_decimal, word_at};

fn handle_line(store: &mut Store, line: &str) -> String {
    handle_line_report(store, line).0
}

fn process_buffer(store: &mut Store, buf: &str) -> String {
    process_buffer_report(store, buf).0
}

fn key(s: &str) -> String {
    s.to_string()
}

fn request(store: &mut Store, lines: &[&str], body: &str) -> String {
    let mut req = HttpRequest::new();
    for line in lines {
        match req.feed(line) {
            HttpStep::Continue => {}
            HttpStep::Complete => break,
            HttpStep::Malformed => return bad_request(),
        }
    }
    req.respond(store, body).0
}

#[test]
fn new_store_is_empty() {
    let store = Store::new();
    assert_eq!(store.get(&key("a")), None);
    assert!(!store.contains(&key("a")));
}

#[test]
fn set_then_get_and_overwrite() {
    let mut store = Store::new();
    store.set(key("a"), key("{\"x\":1}"));
    assert_eq!(store.get(&key("a")), Some(key("{\"x\":1}")));
    store.set(key("a"), key("{\"x\":2}"));
    assert_eq!(store.get(&key("a")), Some(key("{\"x\":2}")));
    assert!(store.contains(&key("a")));
}

#[test]
fn delete_present_and_absent() {
    let mut store = Store::new();
    store.set(key("a"), key("{}"));
    store.set(key("b"), key("{}"));
    store.delete(&key("a"));
    assert_eq!(store.get(&key("a")), None);
    assert_eq!(store.get(&key("b")), Some(key("{}")));
    store.delete(&key("a"));
    assert_eq!(store.get(&key("a")), None);
    assert_eq!(store.get(&key("b")), Some(key("{}")));
}

#[test]
fn parse_payload_shapes() {
    assert!(parse_payload("not json").is_none());
    assert!(matches!(parse_payload("5"), Some(Payload::Scalar)));
    match parse_payload("{\"a\": 1}") {
        Some(Payload::Object(t)) => assert_eq!(t, "{\"a\":1}"),
        _ => panic!("expected an object"),
    }
    match parse_payload("[{\"a\":1}, 3, [{}]]") {
        Some(Payload::Array(items)) => {
            assert_eq!(items.len(), 3);
            assert!(matches!(items[1], Payload::Scalar));
            assert!(matches!(&items[2], Payload::Array(inner) if inner.len() == 1));
        }
        _ => panic!("expected an array"),
    }
}

#[test]
fn array_flattening_overwrites_synthetic_key() {
    let mut store = Store::new();
    let p = parse_payload("[{\"a\":1},{\"a\":2}]").unwrap();
    assert_eq!(store.ingest(&key("K"), &p), Ok(()));
    assert_eq!(store.get(&key("K-ex")), Some(key("{\"a\":2}")));
    assert_eq!(store.get(&key("K")), None);
}

#[test]
fn nested_arrays_chain_the_suffix() {
    let mut store = Store::new();
    let p = parse_payload("[[{\"b\":true}], {\"c\":null}]").unwrap();
    assert_eq!(store.ingest(&key("K"), &p), Ok(()));
    assert_eq!(store.get(&key("K-ex-ex")), Some(key("{\"b\":true}")));
    assert_eq!(store.get(&key("K-ex")), Some(key("{\"c\":null}")));
}

#[test]
fn scalar_payload_changes_nothing() {
    let mut store = Store::new();
    store.set(key("K"), key("{}"));
    let p = parse_payload("5").unwrap();
    assert_eq!(store.ingest(&key("K"), &p), Err(IngestError::InvalidPayload));
    assert_eq!(store.get(&key("K")), Some(key("{}")));
    assert_eq!(store.get(&key("K-ex")), None);
}

#[test]
fn scalar_inside_array_is_dropped_and_siblings_kept() {
    let mut store = Store::new();
    let p = parse_payload("[{\"a\":1}, 7]").unwrap();
    assert_eq!(store.ingest(&key("K"), &p), Err(IngestError::InvalidPayload));
    assert_eq!(store.get(&key("K-ex")), Some(key("{\"a\":1}")));
}

#[test]
fn resp_command_lookup() {
    assert_eq!(RespCommand::from_line("PING"), Some(RespCommand::PING));
    assert_eq!(RespCommand::from_line("GET k"), Some(RespCommand::GET));
    assert_eq!(RespCommand::from_line("SET k {}"), Some(RespCommand::SET));
    assert_eq!(RespCommand::from_line("EXISTS k"), Some(RespCommand::EXISTS));
    assert_eq!(RespCommand::from_line("DEL k"), None);
    assert_eq!(RespCommand::from_line("get k"), None);
    assert_eq!(RespCommand::by_str(&key("EXISTS foo")), RespCommand::EXISTS);
    assert!(RespCommand::PING.non_db());
    assert!(!RespCommand::GET.non_db());
    assert_eq!(RespCommand::PING.process_non_db(), "+PONG\r\n");
    assert_eq!(RespCommand::SET.process_non_db(), "-ERROR IMPOSSIBLE CASE\r\n");
}

#[test]
fn resp_round_trip() {
    let mut store = Store::new();
    assert_eq!(handle_line(&mut store, "SET user {\"name\": \"ann\", \"age\": 3}"), "+OK\r\n");
    assert_eq!(handle_line(&mut store, "GET user"), "+{\"name\":\"ann\",\"age\":3}\r\n");
    assert_eq!(handle_line(&mut store, "EXISTS user"), ":1\r\n");
}

#[test]
fn resp_absence() {
    let mut store = Store::new();
    assert_eq!(handle_line(&mut store, "GET nobody"), "-ERROR NOT FOUND\r\n");
    assert_eq!(handle_line(&mut store, "EXISTS nobody"), ":0\r\n");
}

#[test]
fn resp_errors() {
    let mut store = Store::new();
    assert_eq!(handle_line(&mut store, "SET k {broken"), "-ERROR INVALID JSON\r\n");
    assert_eq!(handle_line(&mut store, "EXISTS k"), ":0\r\n");
    assert_eq!(handle_line(&mut store, "FLUSH"), "-ERROR UNKNOWN COMMAND\r\n");
    assert_eq!(handle_line(&mut store, "GET"), "-ERROR MISSING ARGUMENT\r\n");
    assert_eq!(handle_line(&mut store, "SET k"), "-ERROR MISSING ARGUMENT\r\n");
    assert_eq!(handle_line(&mut store, "PING"), "+PONG\r\n");
}

#[test]
fn resp_scalar_set_is_accepted_but_stores_nothing() {
    let mut store = Store::new();
    assert_eq!(handle_line(&mut store, "SET k 5"), "+OK\r\n");
    assert_eq!(handle_line(&mut store, "EXISTS k"), ":0\r\n");
}

#[test]
fn resp_framing_two_commands_in_one_buffer() {
    let mut store = Store::new();
    assert_eq!(process_buffer(&mut store, "PING\r\nEXISTS foo\r\n"), "+PONG\r\n:0\r\n");
}

#[test]
fn resp_framing_keeps_order_and_skips_empty_pieces() {
    let mut store = Store::new();
    let out = process_buffer(&mut store, "SET a {\"v\":1}\r\n\r\nGET a\r\nEXISTS b");
    assert_eq!(out, "+OK\r\n+{\"v\":1}\r\n:0\r\n");
    assert_eq!(process_buffer(&mut store, ""), "");
    assert_eq!(process_buffer(&mut store, "\r\n\r\n"), "");
}

#[test]
fn distinct_keys_are_all_kept() {
    let mut store = Store::new();
    for i in 0..20 {
        let line = format!("SET k{} {{\"n\":{}}}", i, i);
        assert_eq!(handle_line(&mut store, &line), "+OK\r\n");
    }
    for i in 0..20 {
        let line = format!("GET k{}", i);
        assert_eq!(handle_line(&mut store, &line), format!("+{{\"n\":{}}}\r\n", i));
    }
}

#[test]
fn http_method_names() {
    assert_eq!(HttpMethods::from(key("GET")), HttpMethods::GET);
    assert_eq!(HttpMethods::from(key("PATCH")), HttpMethods::PATCH);
    assert_eq!(HttpMethods::from_name("DELETE"), Some(HttpMethods::DELETE));
    assert_eq!(HttpMethods::from_name("PUT"), None);
    assert_eq!(HttpMethods::default(), HttpMethods::POST);
    assert_eq!(ServerMode::default(), ServerMode::HTTP);
}

#[test]
fn http_header_lines() {
    let mut req = HttpRequest::new();
    assert_eq!(req.feed("POST /items HTTP/1.1\r\n"), HttpStep::Continue);
    assert_eq!(req.method, HttpMethods::POST);
    assert_eq!(req.key, "items");
    assert_eq!(req.feed("Host: localhost\r\n"), HttpStep::Continue);
    assert_eq!(req.feed("Content-Length: 12\r\n"), HttpStep::Continue);
    assert_eq!(req.content_length, Some(12));
    assert_eq!(req.body_length(), 12);
    assert_eq!(req.feed("\r\n"), HttpStep::Complete);
}

#[test]
fn http_malformed_lines() {
    let mut req = HttpRequest::new();
    assert_eq!(req.feed("Content-Length: twelve\r\n"), HttpStep::Malformed);
    assert_eq!(req.feed("Content-Length: 99999999999999999999999\r\n"), HttpStep::Malformed);
    assert_eq!(req.feed("FETCH /x HTTP/1.1\r\n"), HttpStep::Malformed);
    assert_eq!(req.feed("HTTP/1.1\r\n"), HttpStep::Malformed);
    assert_eq!(req.feed("Content-Length: 12 34\r\n"), HttpStep::Malformed);
    assert_eq!(req.feed("Content-Length: +\r\n"), HttpStep::Malformed);
    assert_eq!(req.feed("Content-Length:\r\n"), HttpStep::Malformed);
    assert_eq!(req.content_length, None);
}

#[test]
fn http_length_with_plus_sign() {
    let mut req = HttpRequest::new();
    assert_eq!(req.feed("Content-Length: +8\r\n"), HttpStep::Continue);
    assert_eq!(req.content_length, Some(8));
}

#[test]
fn overlong_fraction_is_refused_not_a_panic() {
    let text = format!("0.{}", "0".repeat(40000));
    assert!(parse_payload(&text).is_none());
    let mut store = Store::new();
    let line = format!("SET k {{\"a\":{}}}", text);
    assert_eq!(handle_line(&mut store, &line), "-ERROR INVALID JSON\r\n");
    let ok = format!("{{\"a\":0.{}1}}", "0".repeat(100));
    assert!(matches!(parse_payload(&ok), Some(Payload::Object(_))));
}

#[test]
fn deeply_nested_arrays_stay_arrays() {
    let text = format!("{}{}", "[".repeat(513), "]".repeat(513));
    let mut p = parse_payload(&text).unwrap();
    let mut depth = 1;
    loop {
        match p {
            Payload::Array(mut items) if !items.is_empty() => {
                p = items.pop().unwrap();
                depth += 1;
            }
            Payload::Array(_) => break,
            _ => panic!("expected an array at depth {}", depth),
        }
    }
    assert_eq!(depth, 513);
}

#[test]
fn unicode_whitespace_separates_words() {
    assert_eq!(word_at("GET\u{3000}key", 1), Some(key("key")));
    let mut store = Store::new();
    store.set(key("key"), key("{}"));
    assert_eq!(handle_line(&mut store, "EXISTS\u{00A0}key"), "-ERROR UNKNOWN COMMAND\r\n");
    assert_eq!(handle_line(&mut store, "EXISTS key\u{2003}"), ":1\r\n");
}

#[test]
fn rejected_payloads_are_reported() {
    let mut store = Store::new();
    let (reply, report) = handle_line_report(&mut store, "SET k [{\"a\":1}, 2]");
    assert_eq!(reply, "+OK\r\n");
    assert_eq!(report, Err(IngestError::InvalidPayload));
    let (_, report) = handle_line_report(&mut store, "SET k {\"a\":1}");
    assert_eq!(report, Ok(()));
    let (out, rejected) = process_buffer_report(&mut store, "PING\r\nSET j 5\r\n");
    assert_eq!(out, "+PONG\r\n+OK\r\n");
    assert!(rejected);
    let (_, rejected) = process_buffer_report(&mut store, "SET j {}\r\n");
    assert!(!rejected);
    let mut req = HttpRequest::new();
    req.feed("POST /x HTTP/1.1\r\n");
    let (reply, report) = req.respond(&mut store, "true");
    assert_eq!(reply, "HTTP/1.1 202 Accepted");
    assert_eq!(report, Err(IngestError::InvalidPayload));
}

#[test]
fn process_acts_on_the_command_given() {
    let mut store = Store::new();
    store.set(key("k"), key("{\"v\":1}"));
    assert_eq!(RespCommand::PING.process(&mut store, "whatever").0, "+PONG\r\n");
    assert_eq!(RespCommand::EXISTS.process(&mut store, "FOO k").0, ":1\r\n");
    assert_eq!(RespCommand::GET.process(&mut store, "X k").0, "+{\"v\":1}\r\n");
    assert_eq!(RespCommand::GET.process(&mut store, "GET none").0, "-ERROR NOT FOUND\r\n");
}

#[test]
fn http_round_trip() {
    let mut store = Store::new();
    let post = request(
        &mut store,
        &["POST /doc HTTP/1.1\r\n", "Content-Length: 7\r\n", "\r\n"],
        "{\"a\":1}",
    );
    assert_eq!(post, "HTTP/1.1 202 Accepted");
    let get = request(&mut store, &["GET /doc HTTP/1.1\r\n", "\r\n"], "");
    assert_eq!(get, "HTTP/1.1 200 OK\r\n\r\n{\"a\":1}");
}

#[test]
fn http_absence_and_delete_idempotence() {
    let mut store = Store::new();
    assert_eq!(request(&mut store, &["GET /none HTTP/1.1\r\n", "\r\n"], ""), "HTTP/1.1 404 Not Found");
    request(&mut store, &["POST /doc HTTP/1.1\r\n", "\r\n"], "{}");
    let first = request(&mut store, &["DELETE /doc HTTP/1.1\r\n", "\r\n"], "");
    let second = request(&mut store, &["DELETE /doc HTTP/1.1\r\n", "\r\n"], "");
    assert_eq!(first, "HTTP/1.1 202 Accepted");
    assert_eq!(first, second);
    assert_eq!(request(&mut store, &["GET /doc HTTP/1.1\r\n", "\r\n"], ""), "HTTP/1.1 404 Not Found");
}

#[test]
fn http_errors() {
    let mut store = Store::new();
    assert_eq!(request(&mut store, &["POST /d HTTP/1.1\r\n", "\r\n"], "{oops"), "HTTP/1.1 400 Bad Request");
    assert_eq!(request(&mut store, &["PATCH /d HTTP/1.1\r\n", "\r\n"], "{}"), "HTTP/1.1 400 Bad Request");
    assert_eq!(request(&mut store, &["PUT /d HTTP/1.1\r\n", "\r\n"], "{}"), "HTTP/1.1 400 Bad Request");
    assert_eq!(internal_error(), "HTTP/1.1 500 Internal Server Error");
    assert_eq!(store.get(&key("d")), None);
}

#[test]
fn decimal_and_words() {
    assert_eq!(parse_decimal("0"), Some(0));
    assert_eq!(parse_decimal("4096"), Some(4096));
    assert_eq!(parse_decimal(""), None);
    assert_eq!(parse_decimal("12a"), None);
    assert_eq!(parse_decimal("18446744073709551616"), None);
    assert_eq!(word_at("  GET   key  ", 1), Some(key("key")));
    assert_eq!(word_at("GET", 1), None);
}
