use vstd::prelude::*;

use crate::json_text::{parse_agrees, parse_payload};
use crate::payload::{Payload, accepted, ingest_spec};
use crate::store::{IngestError, Store};
use crate::text::{
    find_char,
    next_break_exec,
    segments,
    segments_from,
    find_char_exec,
    same_text,
    slice_text,
    word,
    word_at,
};

verus! {

/// A command of the RESP-like protocol.
#[allow(non_camel_case_types)]
#[derive(Debug, Clone, Copy, PartialEq, Eq, Structural)]
pub enum RespCommand {
    PING,
    GET,
    SET,
    EXISTS,
}

/// The first piece of a line, up to its first single space.
pub open spec fn command_word(line: Seq<char>) -> Seq<char> {
    line.subrange(0, find_char(line, 0, ' '))
}

/// The command that a word names, if any.
pub open spec fn command_named(w: Seq<char>) -> Option<RespCommand> {
    if w == "PING"@ {
        Some(RespCommand::PING)
    } else if w == "GET"@ {
        Some(RespCommand::GET)
    } else if w == "SET"@ {
        Some(RespCommand::SET)
    } else if w == "EXISTS"@ {
        Some(RespCommand::EXISTS)
    } else {
        None
    }
}

/// The command that a line starts with, if any.
pub open spec fn command_of(line: Seq<char>) -> Option<RespCommand> {
    command_named(command_word(line))
}

/// The key and the body of a `SET` line: the pieces between its first and its
/// second single space, and after the second.
pub open spec fn set_args(line: Seq<char>) -> Option<(Seq<char>, Seq<char>)> {
    let a = find_char(line, 0, ' ');
    let b = find_char(line, a + 1, ' ');
    if a >= line.len() || b >= line.len() {
        None
    } else {
        Some((line.subrange(a + 1, b), line.subrange(b + 1, line.len() as int)))
    }
}

/// The reply to a line that names no command.
pub open spec fn unknown_reply() -> Seq<char> {
    "-ERROR UNKNOWN COMMAND\r\n"@
}

/// The reply to a command that lacks a key or a body.
pub open spec fn missing_reply() -> Seq<char> {
    "-ERROR MISSING ARGUMENT\r\n"@
}

/// The store after a command is carried out on `line`, and the reply, where
/// `parsed` is what the body of a `SET` parsed to (`None` for a text that is
/// not JSON). `GET` and `EXISTS` act on the second word of the line, `SET` on
/// the pieces after its first and second single spaces.
pub open spec fn command_spec(
    m: Map<Seq<char>, Seq<char>>,
    cmd: RespCommand,
    line: Seq<char>,
    parsed: Option<Payload>,
) -> (Map<Seq<char>, Seq<char>>, Seq<char>) {
    match cmd {
        RespCommand::PING => (m, "+PONG\r\n"@),
        RespCommand::GET => match word(line, 1) {
            None => (m, missing_reply()),
            Some(k) => if m.contains_key(k) {
                (m, "+"@ + m[k] + "\r\n"@)
            } else {
                (m, "-ERROR NOT FOUND\r\n"@)
            },
        },
        RespCommand::EXISTS => match word(line, 1) {
            None => (m, missing_reply()),
            Some(k) => if m.contains_key(k) {
                (m, ":1\r\n"@)
            } else {
                (m, ":0\r\n"@)
            },
        },
        RespCommand::SET => match set_args(line) {
            None => (m, missing_reply()),
            Some((k, _)) => match parsed {
                None => (m, "-ERROR INVALID JSON\r\n"@),
                Some(p) => (ingest_spec(m, k, p), "+OK\r\n"@),
            },
        },
    }
}

/// Whether carrying out the command drops part of the value that it stores.
pub open spec fn command_rejects(cmd: RespCommand, line: Seq<char>, parsed: Option<Payload>) -> bool {
    cmd == RespCommand::SET && set_args(line) is Some && match parsed {
        Some(p) => !accepted(p),
        None => false,
    }
}

/// Whether the line drops part of a value that it stores.
pub open spec fn resp_rejects(line: Seq<char>, parsed: Option<Payload>) -> bool {
    match command_of(line) {
        Some(c) => command_rejects(c, line, parsed),
        None => false,
    }
}

/// Whether `parsed` may be what the body of the line parsed to; for a command
/// other than `SET` it plays no part.
pub open spec fn body_agrees(cmd: RespCommand, line: Seq<char>, parsed: Option<Payload>) -> bool {
    cmd == RespCommand::SET ==> match set_args(line) {
        Some((_, b)) => parse_agrees(b, parsed),
        None => true,
    }
}

/// The store after a line and the reply to it: a line that names no command
/// gets an error and changes nothing.
pub open spec fn resp_spec(m: Map<Seq<char>, Seq<char>>, line: Seq<char>, parsed: Option<Payload>) -> (
    Map<Seq<char>, Seq<char>>,
    Seq<char>,
) {
    match command_of(line) {
        None => (m, unknown_reply()),
        Some(c) => command_spec(m, c, line, parsed),
    }
}

/// One line taken from store `m` to store `m2` with reply `reply`, `rejected`
/// telling whether part of a stored value was dropped, for an outcome of
/// parsing the body that agrees with the parser.
pub open spec fn resp_step(
    m: Map<Seq<char>, Seq<char>>,
    line: Seq<char>,
    m2: Map<Seq<char>, Seq<char>>,
    reply: Seq<char>,
    rejected: bool,
) -> bool {
    exists|p: Option<Payload>|
        (command_of(line) matches Some(c) ==> body_agrees(c, line, p)) && resp_spec(m, line, p) == (
            m2,
            reply,
        ) && resp_rejects(line, p) == rejected
}

impl RespCommand {
    /// The command that the first piece of `line` names, if any.
    pub fn from_line(line: &str) -> (r: Option<RespCommand>)
        ensures
            r == command_of(line@),
    {
        let end = find_char_exec(line, 0, ' ');
        let w = slice_text(line, 0, end);
        let w = w.as_str();
        if same_text(w, "PING") {
            Some(RespCommand::PING)
        } else if same_text(w, "GET") {
            Some(RespCommand::GET)
        } else if same_text(w, "SET") {
            Some(RespCommand::SET)
        } else if same_text(w, "EXISTS") {
            Some(RespCommand::EXISTS)
        } else {
            None
        }
    }

    /// The command that `string` starts with; the line must name one.
    pub fn by_str(string: &String) -> (r: Self)
        requires
            command_of(string@) is Some,
        ensures
            command_of(string@) == Some(r),
    {
        Self::from_line(string.as_str()).unwrap()
    }

    /// Whether the command is answered without the store.
    pub fn non_db(&self) -> (r: bool)
        ensures
            r == (*self == RespCommand::PING),
    {
        match self {
            RespCommand::PING => true,
            _ => false,
        }
    }

    /// The reply to a command that is answered without the store.
    pub fn process_non_db(&self) -> (r: &'static str)
        ensures
            *self == RespCommand::PING ==> r@ == "+PONG\r\n"@,
            *self != RespCommand::PING ==> r@ == "-ERROR IMPOSSIBLE CASE\r\n"@,
    {
        match self {
            RespCommand::PING => "+PONG\r\n",
            _ => "-ERROR IMPOSSIBLE CASE\r\n",
        }
    }

    /// Carries out the command on `line`, where `parsed` is what the body of a
    /// `SET` parsed to. Beside the reply comes the report of a stored value
    /// part of which was dropped.
    pub fn process_parsed(&self, store: &mut Store, line: &str, parsed: Option<Payload>) -> (r: (
        String,
        Result<(), IngestError>,
    ))
        requires
            old(store).wf(),
        ensures
            final(store).wf(),
            (final(store)@, r.0@) == command_spec(old(store)@, *self, line@, parsed),
            r.1 is Err <==> command_rejects(*self, line@, parsed),
    {
        match self {
            RespCommand::GET => match word_at(line, 1) {
                None => (String::from_str("-ERROR MISSING ARGUMENT\r\n"), Ok(())),
                Some(k) => match store.get(&k) {
                    Some(t) => (String::from_str("+").concat(t.as_str()).concat("\r\n"), Ok(())),
                    None => (String::from_str("-ERROR NOT FOUND\r\n"), Ok(())),
                },
            },
            RespCommand::EXISTS => match word_at(line, 1) {
                None => (String::from_str("-ERROR MISSING ARGUMENT\r\n"), Ok(())),
                Some(k) => if store.contains(&k) {
                    (String::from_str(":1\r\n"), Ok(()))
                } else {
                    (String::from_str(":0\r\n"), Ok(()))
                },
            },
            RespCommand::SET => match set_parts(line) {
                None => (String::from_str("-ERROR MISSING ARGUMENT\r\n"), Ok(())),
                Some((k, _)) => match parsed {
                    None => (String::from_str("-ERROR INVALID JSON\r\n"), Ok(())),
                    Some(p) => {
                        let report = store.ingest(&k, &p);
                        (String::from_str("+OK\r\n"), report)
                    },
                },
            },
            RespCommand::PING => (String::from_str(self.process_non_db()), Ok(())),
        }
    }

    /// Carries out the command on `line`, parsing the body of a `SET` as JSON.
    /// Beside the reply comes the report of a stored value part of which was
    /// dropped.
    pub fn process(&self, store: &mut Store, line: &str) -> (r: (String, Result<(), IngestError>))
        requires
            old(store).wf(),
        ensures
            final(store).wf(),
            exists|p: Option<Payload>|
                body_agrees(*self, line@, p) && (final(store)@, r.0@) == command_spec(
                    old(store)@,
                    *self,
                    line@,
                    p,
                ) && (r.1 is Err <==> command_rejects(*self, line@, p)),
    {
        let parsed = match self {
            RespCommand::SET => match set_parts(line) {
                Some((_, body)) => parse_payload(body.as_str()),
                None => None,
            },
            _ => None,
        };
        let ghost p = parsed;
        let r = self.process_parsed(store, line, parsed);
        assert(body_agrees(*self, line@, p));
        r
    }
}

/// The key and the body of a `SET` line.
fn set_parts(line: &str) -> (r: Option<(String, String)>)
    ensures
        match r {
            Some((k, b)) => set_args(line@) == Some((k@, b@)),
            None => set_args(line@) is None,
        },
{
    let n = line.unicode_len();
    let a = find_char_exec(line, 0, ' ');
    if a >= n {
        return None;
    }
    let b = find_char_exec(line, a + 1, ' ');
    if b >= n {
        return None;
    }
    Some((slice_text(line, a + 1, b), slice_text(line, b + 1, n)))
}

/// The reply to one line and its effect on the store, with the report of a
/// stored value part of which was dropped.
pub fn handle_line(store: &mut Store, line: &str) -> (r: (String, Result<(), IngestError>))
    requires
        old(store).wf(),
    ensures
        final(store).wf(),
        resp_step(old(store)@, line@, final(store)@, r.0@, r.1 is Err),
{
    match RespCommand::from_line(line) {
        Some(c) => {
            let ghost m = store@;
            let r = c.process(store, line);
            proof {
                let p = choose|p: Option<Payload>|
                    body_agrees(c, line@, p) && (store@, r.0@) == command_spec(m, c, line@, p) && (
                    r.1 is Err <==> command_rejects(c, line@, p));
                assert(resp_spec(m, line@, p) == (store@, r.0@));
                assert(resp_rejects(line@, p) == r.1 is Err);
                assert(command_of(line@) == Some(c));
                assert(body_agrees(c, line@, p));
                assert(resp_step(m, line@, store@, r.0@, r.1 is Err));
            }
            r
        },
        None => {
            let r = String::from_str("-ERROR UNKNOWN COMMAND\r\n");
            assert(resp_spec(store@, line@, None) == (store@, r@));
            assert(resp_rejects(line@, None) == false);
            assert(resp_step(store@, line@, store@, r@, false));
            (r, Ok(()))
        },
    }
}

/// The replies joined in order.
pub open spec fn concat_all(replies: Seq<Seq<char>>) -> Seq<char>
    decreases replies.len(),
{
    if replies.len() == 0 {
        Seq::empty()
    } else {
        concat_all(replies.drop_last()) + replies.last()
    }
}

/// The lines taken one after another from store `m` to store `m2`, the
/// replies joined in order giving `out`, and `rejected` telling whether any
/// line dropped part of a stored value.
pub open spec fn run_lines(
    m: Map<Seq<char>, Seq<char>>,
    lines: Seq<Seq<char>>,
    m2: Map<Seq<char>, Seq<char>>,
    out: Seq<char>,
    rejected: bool,
) -> bool {
    exists|states: Seq<Map<Seq<char>, Seq<char>>>, replies: Seq<Seq<char>>, flags: Seq<bool>|
        states.len() == lines.len() + 1 && replies.len() == lines.len() && flags.len()
            == lines.len() && states[0] == m && states[lines.len() as int] == m2 && out
            == concat_all(replies) && rejected == flags.contains(true) && forall|i: int|
            0 <= i < lines.len() ==> resp_step(
                #[trigger] states[i],
                lines[i],
                states[i + 1],
                replies[i],
                flags[i],
            )
}

/// Runs each nonempty piece of `buf` between line breaks as a line, in order,
/// and returns the replies joined in the same order, and whether any line
/// dropped part of a stored value.
pub fn process_buffer(store: &mut Store, buf: &str) -> (r: (String, bool))
    requires
        old(store).wf(),
    ensures
        final(store).wf(),
        run_lines(old(store)@, segments(buf@), final(store)@, r.0@, r.1),
{
    let n = buf.unicode_len();
    let mut out = String::new();
    let mut any = false;
    let mut i: usize = 0;
    let ghost mut done: Seq<Seq<char>> = Seq::empty();
    let ghost mut states: Seq<Map<Seq<char>, Seq<char>>> = seq![store@];
    let ghost mut replies: Seq<Seq<char>> = Seq::empty();
    let ghost mut flags: Seq<bool> = Seq::empty();
    while i < n
        invariant
            n == buf@.len(),
            i <= n,
            store.wf(),
            done + segments_from(buf@, i as int) == segments(buf@),
            states.len() == done.len() + 1,
            replies.len() == done.len(),
            flags.len() == done.len(),
            states[0] == old(store)@,
            states[done.len() as int] == store@,
            out@ == concat_all(replies),
            any == flags.contains(true),
            forall|k: int|
                0 <= k < done.len() ==> resp_step(
                    #[trigger] states[k],
                    done[k],
                    states[k + 1],
                    replies[k],
                    flags[k],
                ),
        decreases n - i,
    {
        let j = next_break_exec(buf, i);
        if j > i {
            let line = slice_text(buf, i, j);
            let (reply, report) = handle_line(store, line.as_str());
            out.append(reply.as_str());
            let bad = report.is_err();
            any = any || bad;
            proof {
                assert(seq![line@] + segments_from(buf@, if j < n { j + 2 } else { n as int })
                    == segments_from(buf@, i as int));
                assert(replies.push(reply@).drop_last() =~= replies);
                assert(flags.push(bad).contains(true) == (flags.contains(true) || bad)) by {
                    if flags.contains(true) {
                        let q = choose|q: int| 0 <= q < flags.len() && flags[q] == true;
                        assert(flags.push(bad)[q] == true);
                    }
                    if bad {
                        assert(flags.push(bad)[flags.len() as int] == true);
                    }
                }
                done = done.push(line@);
                states = states.push(store@);
                replies = replies.push(reply@);
                flags = flags.push(bad);
            }
        } else {
            assert(segments_from(buf@, if j < n { j + 2 } else { n as int }) == segments_from(
                buf@,
                i as int,
            ));
        }
        proof {
            assert(segments_from(buf@, n as int) =~= Seq::<Seq<char>>::empty());
        }
        if j >= n {
            i = n;
        } else {
            i = j + 2;
        }
    }
    assert(done + segments_from(buf@, i as int) =~= done);
    proof {
        lemma_run_lines_intro(old(store)@, done, store@, out@, any, states, replies, flags);
    }
    (out, any)
}

/// Lines, states, replies and flags that fit together step by step make a run.
proof fn lemma_run_lines_intro(
    m: Map<Seq<char>, Seq<char>>,
    lines: Seq<Seq<char>>,
    m2: Map<Seq<char>, Seq<char>>,
    out: Seq<char>,
    rejected: bool,
    states: Seq<Map<Seq<char>, Seq<char>>>,
    replies: Seq<Seq<char>>,
    flags: Seq<bool>,
)
    requires
        states.len() == lines.len() + 1,
        replies.len() == lines.len(),
        flags.len() == lines.len(),
        states[0] == m,
        states[lines.len() as int] == m2,
        out == concat_all(replies),
        rejected == flags.contains(true),
        forall|i: int|
            0 <= i < lines.len() ==> resp_step(
                #[trigger] states[i],
                lines[i],
                states[i + 1],
                replies[i],
                flags[i],
            ),
    ensures
        run_lines(m, lines, m2, out, rejected),
{
}

} // verus!
