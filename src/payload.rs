use vstd::prelude::*;

verus! {

/// A JSON value as ingestion sees it: an object (kept as its JSON text), an
/// array of values, or anything else.
pub enum Payload {
    Object(String),
    Array(Vec<Payload>),
    Scalar,
}

/// The suffix appended to a key for the elements of an array.
pub open spec fn array_suffix() -> Seq<char> {
    seq!['-', 'e', 'x']
}

/// The store after ingesting `p` under `key` into `m`: an object is stored under
/// the key, each element of an array is ingested in order under the key with the
/// suffix appended, anything else leaves the store as it is.
pub open spec fn ingest_spec(m: Map<Seq<char>, Seq<char>>, key: Seq<char>, p: Payload) -> Map<
    Seq<char>,
    Seq<char>,
>
    decreases p, 0int,
{
    match p {
        Payload::Object(t) => m.insert(key, t@),
        Payload::Array(v) => ingest_prefix(m, key + array_suffix(), v@, v@.len() as int),
        Payload::Scalar => m,
    }
}

/// The store after ingesting the first `n` of `items`, in order, under `key`.
pub open spec fn ingest_prefix(
    m: Map<Seq<char>, Seq<char>>,
    key: Seq<char>,
    items: Seq<Payload>,
    n: int,
) -> Map<Seq<char>, Seq<char>>
    decreases items, n,
{
    if n <= 0 || n > items.len() {
        m
    } else {
        ingest_spec(ingest_prefix(m, key, items, n - 1), key, items[n - 1])
    }
}

/// Whether `p` holds nothing that ingestion rejects: no value other than an
/// object or an array, at any depth.
pub open spec fn accepted(p: Payload) -> bool
    decreases p, 0int,
{
    match p {
        Payload::Object(_) => true,
        Payload::Array(v) => accepted_prefix(v@, v@.len() as int),
        Payload::Scalar => false,
    }
}

/// Whether each of the first `n` of `items` is accepted.
pub open spec fn accepted_prefix(items: Seq<Payload>, n: int) -> bool
    decreases items, n,
{
    if n <= 0 || n > items.len() {
        true
    } else {
        accepted_prefix(items, n - 1) && accepted(items[n - 1])
    }
}

} // verus!
