use vstd::prelude::*;

use crate::http::{HttpMethods, http_spec};
use crate::payload::{
    Payload,
    accepted,
    array_suffix,
    ingest_prefix,
    ingest_spec,
};
use crate::json_text::{JsonKind, json_kind, parse_agrees};
use crate::resp::{RespCommand, command_of, command_spec, command_word, resp_spec, set_args};
use crate::text::{find_char, is_space, skip_space, skip_word, word, word_from};

verus! {

/// Whether `k` can stand as one word of a line: it is nonempty and holds no
/// space.
pub open spec fn is_word(k: Seq<char>) -> bool {
    k.len() > 0 && forall|i: int| 0 <= i < k.len() ==> !is_space(#[trigger] k[i])
}

/// The line `SET <k> <body>`.
pub open spec fn set_line(k: Seq<char>, body: Seq<char>) -> Seq<char> {
    "SET "@ + k + " "@ + body
}

/// The line `<command> <k>`.
pub open spec fn key_line(command: Seq<char>, k: Seq<char>) -> Seq<char> {
    command + " "@ + k
}

proof fn lemma_skip_word(s: Seq<char>, i: int, j: int)
    requires
        0 <= i <= j <= s.len(),
        forall|q: int| i <= q < j ==> !is_space(#[trigger] s[q]),
        j == s.len() || is_space(s[j]),
    ensures
        skip_word(s, i) == j,
    decreases j - i,
{
    if i < j {
        lemma_skip_word(s, i + 1, j);
    }
}

proof fn lemma_skip_space(s: Seq<char>, i: int, j: int)
    requires
        0 <= i <= j <= s.len(),
        forall|q: int| i <= q < j ==> is_space(#[trigger] s[q]),
        j == s.len() || !is_space(s[j]),
    ensures
        skip_space(s, i) == j,
    decreases j - i,
{
    if i < j {
        lemma_skip_space(s, i + 1, j);
    }
}

proof fn lemma_find_char(s: Seq<char>, i: int, j: int, c: char)
    requires
        0 <= i <= j < s.len(),
        forall|q: int| i <= q < j ==> #[trigger] s[q] != c,
        s[j] == c,
    ensures
        find_char(s, i, c) == j,
    decreases j - i,
{
    if i < j {
        lemma_find_char(s, i + 1, j, c);
    }
}

/// The second word of `<command> <k>` is `k`, where the command is a word.
proof fn lemma_key_line_word(command: Seq<char>, k: Seq<char>)
    requires
        is_word(command),
        is_word(k),
    ensures
        word(key_line(command, k), 1) == Some(k),
        find_char(key_line(command, k), 0, ' ') == command.len(),
{
    reveal_strlit(" ");
    let s = key_line(command, k);
    let c = command.len() as int;
    assert forall|q: int| 0 <= q < c implies !is_space(#[trigger] s[q]) by {
        assert(s[q] == command[q]);
    }
    assert forall|q: int| c + 1 <= q < s.len() implies !is_space(#[trigger] s[q]) by {
        assert(s[q] == k[q - c - 1]);
    }
    assert(s[c] == ' ');
    lemma_skip_space(s, 0, 0);
    lemma_skip_word(s, 0, c);
    lemma_skip_space(s, c, c + 1);
    lemma_skip_word(s, c + 1, s.len() as int);
    assert(s.subrange(c + 1, s.len() as int) =~= k);
    assert forall|q: int| 0 <= q < c implies #[trigger] s[q] != ' ' by {
        assert(!is_space(s[q]));
    }
    lemma_find_char(s, 0, c, ' ');
    assert(word_from(s, c, 0) == Some(k));
}

/// `SET <k> <body>` starts with `SET`, and its key and body are `k` and `body`.
proof fn lemma_set_line(k: Seq<char>, body: Seq<char>)
    requires
        is_word(k),
    ensures
        find_char(set_line(k, body), 0, ' ') == 3,
        set_line(k, body).subrange(0, 3) == "SET"@,
        find_char(set_line(k, body), 4, ' ') == 4 + k.len(),
        set_line(k, body).subrange(4, 4 + k.len() as int) == k,
{
    reveal_strlit("SET ");
    reveal_strlit(" ");
    reveal_strlit("SET");
    let s = set_line(k, body);
    let e = 4 + k.len() as int;
    assert forall|q: int| 0 <= q < 3 implies #[trigger] s[q] != ' ' by {}
    assert(s[3] == ' ');
    lemma_find_char(s, 0, 3, ' ');
    assert forall|q: int| 4 <= q < e implies #[trigger] s[q] != ' ' by {
        assert(s[q] == k[q - 4]);
        assert(!is_space(k[q - 4]));
    }
    assert(s[e] == ' ');
    lemma_find_char(s, 4, e, ' ');
    assert(s.subrange(0, 3) =~= "SET"@);
    assert(s.subrange(4, e) =~= k);
}

/// Storing an object under a key and then reading that key over the RESP-like
/// protocol gives back the object's text: `SET k <body>`, where the body
/// parsed to an object, followed by `GET k` replies `+<object>`.
pub proof fn lemma_resp_round_trip(
    m: Map<Seq<char>, Seq<char>>,
    k: Seq<char>,
    body: Seq<char>,
    text: String,
    get_parsed: Option<Payload>,
)
    requires
        is_word(k),
    ensures
        ({
            let (m1, set_reply) = resp_spec(m, set_line(k, body), Some(Payload::Object(text)));
            let (m2, get_reply) = resp_spec(m1, key_line("GET"@, k), get_parsed);
            set_reply == "+OK\r\n"@ && m2 == m1 && get_reply == "+"@ + text@ + "\r\n"@
        }),
{
    reveal_strlit("GET");
    reveal_strlit("SET");
    reveal_strlit("PING");
    reveal_strlit("EXISTS");
    lemma_set_line(k, body);
    lemma_key_line_word("GET"@, k);
    let line = set_line(k, body);
    reveal_strlit("SET ");
    reveal_strlit(" ");
    assert(line.len() == 5 + k.len() + body.len());
    assert(line.subrange(5 + k.len() as int, line.len() as int) =~= body);
    assert(set_args(line) == Some((k, body)));
    assert(command_word(line) == "SET"@);
    assert("SET"@[0] != "GET"@[0]);
    assert(command_of(line) == Some(RespCommand::SET));
    assert(key_line("GET"@, k).subrange(0, 3) =~= "GET"@);
    assert(command_of(key_line("GET"@, k)) == Some(RespCommand::GET));
}

/// Storing an object under a key with `POST` and then reading that key with
/// `GET` answers with the object's text.
pub proof fn lemma_http_round_trip(
    m: Map<Seq<char>, Seq<char>>,
    k: Seq<char>,
    text: String,
    get_parsed: Option<Payload>,
)
    ensures
        ({
            let (m1, post_reply) = http_spec(m, HttpMethods::POST, k, Some(Payload::Object(text)));
            let (m2, get_reply) = http_spec(m1, HttpMethods::GET, k, get_parsed);
            post_reply == "HTTP/1.1 202 Accepted"@ && m2 == m1 && get_reply
                == "HTTP/1.1 200 OK\r\n\r\n"@ + text@
        }),
{
}

/// On a key that the store does not hold, `GET` and `EXISTS` report it absent
/// over both protocols, and leave the store as it is.
pub proof fn lemma_absence(m: Map<Seq<char>, Seq<char>>, k: Seq<char>, parsed: Option<Payload>)
    requires
        !m.contains_key(k),
        is_word(k),
    ensures
        resp_spec(m, key_line("GET"@, k), parsed) == (m, "-ERROR NOT FOUND\r\n"@),
        resp_spec(m, key_line("EXISTS"@, k), parsed) == (m, ":0\r\n"@),
        http_spec(m, HttpMethods::GET, k, parsed) == (m, "HTTP/1.1 404 Not Found"@),
{
    reveal_strlit("GET");
    reveal_strlit("SET");
    reveal_strlit("PING");
    reveal_strlit("EXISTS");
    lemma_key_line_word("GET"@, k);
    lemma_key_line_word("EXISTS"@, k);
    assert(key_line("GET"@, k).subrange(0, 3) =~= "GET"@);
    assert(key_line("EXISTS"@, k).subrange(0, 6) =~= "EXISTS"@);
}

/// `DELETE` answers the same whether or not the key is there; deleting twice
/// leaves the store as deleting once; and a `GET` after it finds nothing.
pub proof fn lemma_delete_idempotent(
    m: Map<Seq<char>, Seq<char>>,
    k: Seq<char>,
    parsed: Option<Payload>,
)
    ensures
        http_spec(m, HttpMethods::DELETE, k, parsed).1 == "HTTP/1.1 202 Accepted"@,
        ({
            let (m1, r1) = http_spec(m, HttpMethods::DELETE, k, parsed);
            let (m2, r2) = http_spec(m1, HttpMethods::DELETE, k, parsed);
            m2 == m1 && r2 == r1 && http_spec(m1, HttpMethods::GET, k, parsed) == (
                m1,
                "HTTP/1.1 404 Not Found"@,
            )
        }),
{
    let m1 = m.remove(k);
    assert(m1.remove(k) =~= m1);
}

/// Ingesting a value that is neither an object nor an array changes nothing
/// and is reported as rejected.
pub proof fn lemma_scalar_rejected(m: Map<Seq<char>, Seq<char>>, k: Seq<char>)
    ensures
        ingest_spec(m, k, Payload::Scalar) == m,
        !accepted(Payload::Scalar),
{
}

/// Ingesting a nonempty array of objects under `k` writes the key `k-ex` only,
/// each element in turn, so that the last element's text stays there.
pub proof fn lemma_array_of_objects(
    m: Map<Seq<char>, Seq<char>>,
    k: Seq<char>,
    items: Vec<Payload>,
)
    requires
        items@.len() > 0,
        forall|i: int| 0 <= i < items@.len() ==> (#[trigger] items@[i]) is Object,
    ensures
        ingest_spec(m, k, Payload::Array(items)) == m.insert(
            k + array_suffix(),
            items@.last()->Object_0@,
        ),
{
    lemma_objects_prefix(m, k + array_suffix(), items@, items@.len() as int);
}

proof fn lemma_objects_prefix(
    m: Map<Seq<char>, Seq<char>>,
    k: Seq<char>,
    items: Seq<Payload>,
    n: int,
)
    requires
        1 <= n <= items.len(),
        forall|i: int| 0 <= i < items.len() ==> (#[trigger] items[i]) is Object,
    ensures
        ingest_prefix(m, k, items, n) == m.insert(k, items[n - 1]->Object_0@),
    decreases n,
{
    assert(items[n - 1] is Object);
    let prev = ingest_prefix(m, k, items, n - 1);
    assert(ingest_prefix(m, k, items, n) == ingest_spec(prev, k, items[n - 1]));
    assert(ingest_spec(prev, k, items[n - 1]) == prev.insert(k, items[n - 1]->Object_0@));
    if n > 1 {
        lemma_objects_prefix(m, k, items, n - 1);
        assert(items[n - 2] is Object);
        assert(m.insert(k, items[n - 2]->Object_0@).insert(k, items[n - 1]->Object_0@) =~= m.insert(
            k,
            items[n - 1]->Object_0@,
        ));
    }
}

/// The store after storing `texts[i]` under `keys[i]` for each `i < n`, in
/// that order.
pub open spec fn apply_sets(
    m: Map<Seq<char>, Seq<char>>,
    keys: Seq<Seq<char>>,
    texts: Seq<Seq<char>>,
    n: int,
) -> Map<Seq<char>, Seq<char>>
    decreases n,
{
    if n <= 0 {
        m
    } else {
        apply_sets(m, keys, texts, n - 1).insert(keys[n - 1], texts[n - 1])
    }
}

/// Writes to distinct keys, taken one at a time in whatever order, lose
/// nothing: afterwards each key holds the text written to it, and every other
/// key holds what it held before.
pub proof fn lemma_distinct_writes(
    m: Map<Seq<char>, Seq<char>>,
    keys: Seq<Seq<char>>,
    texts: Seq<Seq<char>>,
)
    requires
        keys.len() == texts.len(),
        forall|i: int, j: int| 0 <= i < j < keys.len() ==> keys[i] != keys[j],
    ensures
        forall|i: int|
            0 <= i < keys.len() ==> #[trigger] apply_sets(m, keys, texts, keys.len() as int).contains_key(
                keys[i],
            ) && apply_sets(m, keys, texts, keys.len() as int)[keys[i]] == texts[i],
        forall|q: Seq<char>|
            !keys.contains(q) ==> #[trigger] apply_sets(m, keys, texts, keys.len() as int).contains_key(q)
                == m.contains_key(q) && apply_sets(m, keys, texts, keys.len() as int)[q] == m[q],
{
    lemma_sets_prefix(m, keys, texts, keys.len() as int);
}

proof fn lemma_sets_prefix(
    m: Map<Seq<char>, Seq<char>>,
    keys: Seq<Seq<char>>,
    texts: Seq<Seq<char>>,
    n: int,
)
    requires
        0 <= n <= keys.len(),
        keys.len() == texts.len(),
        forall|i: int, j: int| 0 <= i < j < keys.len() ==> keys[i] != keys[j],
    ensures
        forall|i: int|
            0 <= i < n ==> #[trigger] apply_sets(m, keys, texts, n).contains_key(keys[i])
                && apply_sets(m, keys, texts, n)[keys[i]] == texts[i],
        forall|q: Seq<char>|
            (forall|i: int| 0 <= i < n ==> keys[i] != q) ==> #[trigger] apply_sets(
                m,
                keys,
                texts,
                n,
            ).contains_key(q) == m.contains_key(q) && apply_sets(m, keys, texts, n)[q] == m[q],
    decreases n,
{
    if n > 0 {
        lemma_sets_prefix(m, keys, texts, n - 1);
        let prev = apply_sets(m, keys, texts, n - 1);
        let cur = apply_sets(m, keys, texts, n);
        assert(cur == prev.insert(keys[n - 1], texts[n - 1]));
        assert forall|i: int| 0 <= i < n implies #[trigger] cur.contains_key(keys[i]) && cur[keys[i]]
            == texts[i] by {
            if i < n - 1 {
                assert(keys[i] != keys[n - 1]);
                assert(prev.contains_key(keys[i]));
            }
        }
        assert forall|q: Seq<char>|
            (forall|i: int| 0 <= i < n ==> keys[i] != q) implies #[trigger] cur.contains_key(q)
                == m.contains_key(q) && cur[q] == m[q] by {
            assert(keys[n - 1] != q);
            assert(forall|i: int| 0 <= i < n - 1 ==> keys[i] != q);
        }
    }
}

/// `GET` and `EXISTS` on a line whose second word is a key that the store
/// does not hold report it absent (not found, and `0`) and change nothing,
/// whatever else the line holds.
pub proof fn lemma_absent_key(
    m: Map<Seq<char>, Seq<char>>,
    line: Seq<char>,
    k: Seq<char>,
    parsed: Option<Payload>,
)
    requires
        word(line, 1) == Some(k),
        !m.contains_key(k),
    ensures
        command_spec(m, RespCommand::GET, line, parsed) == (m, "-ERROR NOT FOUND\r\n"@),
        command_spec(m, RespCommand::EXISTS, line, parsed) == (m, ":0\r\n"@),
{
}

/// `SET k <body>` with a body that the parser reads as an object, followed by
/// `GET k`, replies with the text of the object that the body was read as.
pub proof fn lemma_resp_round_trip_parsed(
    m: Map<Seq<char>, Seq<char>>,
    k: Seq<char>,
    body: Seq<char>,
    p: Payload,
    get_parsed: Option<Payload>,
)
    requires
        is_word(k),
        parse_agrees(body, Some(p)),
        json_kind(body) == JsonKind::Object,
    ensures
        p is Object,
        ({
            let (m1, set_reply) = resp_spec(m, set_line(k, body), Some(p));
            let (m2, get_reply) = resp_spec(m1, key_line("GET"@, k), get_parsed);
            set_reply == "+OK\r\n"@ && m2 == m1 && get_reply == "+"@ + p->Object_0@ + "\r\n"@
        }),
{
    lemma_resp_round_trip(m, k, body, p->Object_0, get_parsed);
}

/// `POST` of a body that the parser reads as an object, followed by `GET` on
/// the same key, answers with the text of the object that the body was read
/// as.
pub proof fn lemma_http_round_trip_parsed(
    m: Map<Seq<char>, Seq<char>>,
    k: Seq<char>,
    body: Seq<char>,
    p: Payload,
    get_parsed: Option<Payload>,
)
    requires
        parse_agrees(body, Some(p)),
        json_kind(body) == JsonKind::Object,
    ensures
        p is Object,
        ({
            let (m1, post_reply) = http_spec(m, HttpMethods::POST, k, Some(p));
            let (m2, get_reply) = http_spec(m1, HttpMethods::GET, k, get_parsed);
            post_reply == "HTTP/1.1 202 Accepted"@ && m2 == m1 && get_reply
                == "HTTP/1.1 200 OK\r\n\r\n"@ + p->Object_0@
        }),
{
    lemma_http_round_trip(m, k, p->Object_0, get_parsed);
}

} // verus!
