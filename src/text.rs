use vstd::prelude::*;
use vstd::std_specs::iter::IteratorSpec;

verus! {

/// The characters that separate the words of a line: those of Unicode's
/// `White_Space` property.
pub open spec fn is_space(c: char) -> bool {
    ('\u{9}' <= c <= '\u{D}') || c == ' ' || c == '\u{85}' || c == '\u{A0}' || c == '\u{1680}'
        || ('\u{2000}' <= c <= '\u{200A}') || c == '\u{2028}' || c == '\u{2029}' || c == '\u{202F}'
        || c == '\u{205F}' || c == '\u{3000}'
}

/// The first position at or after `i` that holds no space.
pub open spec fn skip_space(s: Seq<char>, i: int) -> int
    decreases s.len() - i,
{
    if 0 <= i < s.len() && is_space(s[i]) {
        skip_space(s, i + 1)
    } else {
        i
    }
}

/// The first position at or after `i` that holds a space, or the end.
pub open spec fn skip_word(s: Seq<char>, i: int) -> int
    decreases s.len() - i,
{
    if 0 <= i < s.len() && !is_space(s[i]) {
        skip_word(s, i + 1)
    } else {
        i
    }
}

/// The word of index `n` among the words of `s` from position `i` on.
pub open spec fn word_from(s: Seq<char>, i: int, n: nat) -> Option<Seq<char>>
    decreases n, s.len() - i,
{
    let a = skip_space(s, i);
    if a < 0 || a >= s.len() {
        None
    } else if n == 0 {
        Some(s.subrange(a, skip_word(s, a)))
    } else if skip_word(s, a) <= i {
        None
    } else {
        word_from(s, skip_word(s, a), (n - 1) as nat)
    }
}

/// The word of index `n` of `s`, words being separated by spaces.
pub open spec fn word(s: Seq<char>, n: nat) -> Option<Seq<char>> {
    word_from(s, 0, n)
}

/// The first position at or after `i` that holds `c`, or the end.
pub open spec fn find_char(s: Seq<char>, i: int, c: char) -> int
    decreases s.len() - i,
{
    if 0 <= i < s.len() && s[i] != c {
        find_char(s, i + 1, c)
    } else if i < 0 {
        0
    } else if i > s.len() {
        s.len() as int
    } else {
        i
    }
}

/// Whether `pat` occurs in `s` at position `i`.
pub open spec fn occurs_at(s: Seq<char>, i: int, pat: Seq<char>) -> bool {
    0 <= i && i + pat.len() <= s.len() && s.subrange(i, i + pat.len()) == pat
}

/// Whether `s` begins with `pat`.
pub open spec fn starts_with(s: Seq<char>, pat: Seq<char>) -> bool {
    occurs_at(s, 0, pat)
}

/// Whether `pat` occurs anywhere in `s`.
pub open spec fn contains(s: Seq<char>, pat: Seq<char>) -> bool {
    exists|i: int| occurs_at(s, i, pat)
}

/// Whether `c` is a decimal digit.
pub open spec fn is_digit(c: char) -> bool {
    '0' <= c <= '9'
}

/// Whether `s` is a nonempty run of decimal digits.
pub open spec fn all_digits(s: Seq<char>) -> bool {
    s.len() > 0 && forall|i: int| 0 <= i < s.len() ==> is_digit(#[trigger] s[i])
}

/// The number that the decimal digits of `s` write.
pub open spec fn decimal(s: Seq<char>) -> nat
    decreases s.len(),
{
    if s.len() == 0 {
        0
    } else {
        decimal(s.drop_last()) * 10 + (s.last() as nat - '0' as nat) as nat
    }
}

/// Whether `c` separates words.
pub fn is_space_char(c: char) -> (r: bool)
    ensures
        r == is_space(c),
{
    ('\u{9}' <= c && c <= '\u{D}') || c == ' ' || c == '\u{85}' || c == '\u{A0}' || c
        == '\u{1680}' || ('\u{2000}' <= c && c <= '\u{200A}') || c == '\u{2028}' || c
        == '\u{2029}' || c == '\u{202F}' || c == '\u{205F}' || c == '\u{3000}'
}

/// The first position at or after `i` that holds no space.
fn skip_space_exec(s: &str, i: usize) -> (r: usize)
    requires
        i <= s@.len(),
    ensures
        r == skip_space(s@, i as int),
        i <= r <= s@.len(),
{
    let n = s.unicode_len();
    let mut j = i;
    while j < n && is_space_char(s.get_char(j))
        invariant
            n == s@.len(),
            i <= j <= n,
            skip_space(s@, j as int) == skip_space(s@, i as int),
        decreases n - j,
    {
        j = j + 1;
    }
    j
}

/// The first position at or after `i` that holds a space, or the end.
fn skip_word_exec(s: &str, i: usize) -> (r: usize)
    requires
        i <= s@.len(),
    ensures
        r == skip_word(s@, i as int),
        i <= r <= s@.len(),
{
    let n = s.unicode_len();
    let mut j = i;
    while j < n && !is_space_char(s.get_char(j))
        invariant
            n == s@.len(),
            i <= j <= n,
            skip_word(s@, j as int) == skip_word(s@, i as int),
        decreases n - j,
    {
        j = j + 1;
    }
    j
}

/// The word of index `n` among the words of `s` from position `start` on.
pub fn word_from_exec(s: &str, start: usize, n: usize) -> (r: Option<String>)
    requires
        start <= s@.len(),
    ensures
        match r {
            Some(w) => word_from(s@, start as int, n as nat) == Some(w@),
            None => word_from(s@, start as int, n as nat) is None,
        },
{
    let len = s.unicode_len();
    let mut pos: usize = start;
    let mut k: usize = n;
    loop
        invariant
            len == s@.len(),
            pos <= len,
            k <= n,
            word_from(s@, pos as int, k as nat) == word_from(s@, start as int, n as nat),
        decreases k, len - pos,
    {
        let a = skip_space_exec(s, pos);
        if a >= len {
            return None;
        }
        let b = skip_word_exec(s, a);
        if k == 0 {
            return Some(slice_text(s, a, b));
        }
        if b <= pos {
            return None;
        }
        pos = b;
        k = k - 1;
    }
}

/// The word of index `n` of `s`.
pub fn word_at(s: &str, n: usize) -> (r: Option<String>)
    ensures
        match r {
            Some(w) => word(s@, n as nat) == Some(w@),
            None => word(s@, n as nat) is None,
        },
{
    word_from_exec(s, 0, n)
}

/// The first position at or after `i` that holds `c`, or the length of `s`.
pub fn find_char_exec(s: &str, i: usize, c: char) -> (r: usize)
    requires
        i <= s@.len(),
    ensures
        r == find_char(s@, i as int, c),
        i <= r <= s@.len(),
{
    let n = s.unicode_len();
    let mut j = i;
    while j < n && s.get_char(j) != c
        invariant
            n == s@.len(),
            i <= j <= n,
            find_char(s@, j as int, c) == find_char(s@, i as int, c),
        decreases n - j,
    {
        j = j + 1;
    }
    j
}

/// Whether `pat` occurs in `s` at position `i`.
pub fn occurs_at_exec(s: &str, i: usize, pat: &str) -> (r: bool)
    ensures
        r == occurs_at(s@, i as int, pat@),
{
    let n = s.unicode_len();
    let m = pat.unicode_len();
    if i > n || m > n - i {
        return false;
    }
    let mut j: usize = 0;
    while j < m
        invariant
            n == s@.len(),
            m == pat@.len(),
            i + m <= n,
            j <= m,
            forall|q: int| 0 <= q < j ==> s@[i + q] == pat@[q],
        decreases m - j,
    {
        if s.get_char(i + j) != pat.get_char(j) {
            assert(s@.subrange(i as int, i + m)[j as int] != pat@[j as int]);
            return false;
        }
        j = j + 1;
    }
    assert(s@.subrange(i as int, i + m) =~= pat@);
    true
}

/// Whether `s` begins with `pat`.
pub fn starts_with_exec(s: &str, pat: &str) -> (r: bool)
    ensures
        r == starts_with(s@, pat@),
{
    occurs_at_exec(s, 0, pat)
}

/// Whether `pat` occurs anywhere in `s`.
pub fn contains_exec(s: &str, pat: &str) -> (r: bool)
    ensures
        r == contains(s@, pat@),
{
    let n = s.unicode_len();
    let mut i: usize = 0;
    while i < n
        invariant
            n == s@.len(),
            i <= n,
            forall|q: int| 0 <= q < i ==> !occurs_at(s@, q, pat@),
        decreases n - i,
    {
        if occurs_at_exec(s, i, pat) {
            return true;
        }
        i = i + 1;
    }
    if occurs_at_exec(s, n, pat) {
        return true;
    }
    assert forall|q: int| !occurs_at(s@, q, pat@) by {
        if 0 <= q && q + pat@.len() <= s@.len() && q != n {
            assert(q < i);
        }
    }
    false
}

/// A prefix of a run of digits writes no larger a number.
proof fn lemma_decimal_prefix(s: Seq<char>, k: int)
    requires
        0 <= k <= s.len(),
    ensures
        decimal(s.take(k)) <= decimal(s),
    decreases s.len(),
{
    if k < s.len() {
        lemma_decimal_prefix(s.drop_last(), k);
        assert(s.drop_last().take(k) =~= s.take(k));
    } else {
        assert(s.take(k) =~= s);
    }
}

/// The number that `s` writes in decimal digits, where it is a nonempty run of
/// digits whose value fits a `usize`.
pub fn parse_decimal(s: &str) -> (r: Option<usize>)
    ensures
        r is Some <==> all_digits(s@) && decimal(s@) <= usize::MAX,
        r matches Some(v) ==> v == decimal(s@),
{
    let n = s.unicode_len();
    if n == 0 {
        return None;
    }
    let mut v: usize = 0;
    let mut j: usize = 0;
    while j < n
        invariant
            n == s@.len(),
            j <= n,
            forall|q: int| 0 <= q < j ==> is_digit(#[trigger] s@[q]),
            v == decimal(s@.take(j as int)),
        decreases n - j,
    {
        let c = s.get_char(j);
        if !('0' <= c && c <= '9') {
            return None;
        }
        let d = (c as u32 - '0' as u32) as usize;
        assert(s@.take(j + 1).drop_last() =~= s@.take(j as int));
        if v > (usize::MAX - d) / 10 {
            proof {
                assert(decimal(s@.take(j + 1)) > usize::MAX) by (nonlinear_arith)
                    requires
                        decimal(s@.take(j + 1)) == v * 10 + d,
                        v > (usize::MAX - d) / 10,
                        d <= 9,
                ;
                lemma_decimal_prefix(s@, j + 1);
            }
            return None;
        }
        assert(v * 10 + d <= usize::MAX) by (nonlinear_arith)
            requires
                v <= (usize::MAX - d) / 10,
                d <= 9,
        ;
        v = v * 10 + d;
        j = j + 1;
    }
    assert(s@.take(n as int) =~= s@);
    Some(v)
}

/// The position of the first line break (`\r\n`) at or after `i`, or the end.
pub open spec fn next_break(s: Seq<char>, i: int) -> int
    decreases s.len() - i,
{
    if i < 0 {
        0
    } else if i + 1 >= s.len() {
        s.len() as int
    } else if s[i] == '\r' && s[i + 1] == '\n' {
        i
    } else {
        next_break(s, i + 1)
    }
}

/// The nonempty pieces of `s` from position `i` on, between line breaks.
pub open spec fn segments_from(s: Seq<char>, i: int) -> Seq<Seq<char>>
    decreases s.len() - i,
{
    if i < 0 || i >= s.len() {
        Seq::empty()
    } else {
        let j = next_break(s, i);
        let rest = if j + 2 <= s.len() && j >= i {
            segments_from(s, j + 2)
        } else {
            Seq::empty()
        };
        if j <= i {
            rest
        } else {
            seq![s.subrange(i, j)] + rest
        }
    }
}

/// The nonempty pieces of `s` between line breaks, in order.
pub open spec fn segments(s: Seq<char>) -> Seq<Seq<char>> {
    segments_from(s, 0)
}

/// The position of the first line break at or after `i`, or the length of `s`.
pub fn next_break_exec(s: &str, i: usize) -> (r: usize)
    requires
        i <= s@.len(),
    ensures
        r == next_break(s@, i as int),
        i <= r <= s@.len(),
        r < s@.len() ==> r + 2 <= s@.len(),
{
    let n = s.unicode_len();
    let mut j = i;
    while j < n && j + 1 < n && !(s.get_char(j) == '\r' && s.get_char(j + 1) == '\n')
        invariant
            n == s@.len(),
            i <= j <= n,
            next_break(s@, j as int) == next_break(s@, i as int),
        decreases n - j,
    {
        j = j + 1;
    }
    if j >= n || j + 1 >= n {
        n
    } else {
        j
    }
}

/// Whether `a` and `b` hold the same characters.
pub fn same_text(a: &str, b: &str) -> (r: bool)
    ensures
        r == (a@ == b@),
{
    if a.unicode_len() != b.unicode_len() {
        return false;
    }
    let r = occurs_at_exec(a, 0, b);
    assert(a@.subrange(0, a@.len() as int) =~= a@);
    r
}

/// The characters of `s` from `from` up to `to`, as a new string.
pub fn slice_text(s: &str, from: usize, to: usize) -> (r: String)
    requires
        from <= to <= s@.len(),
    ensures
        r@ == s@.subrange(from as int, to as int),
{
    String::from_str(s.substring_char(from, to))
}

/// The length of the run of decimal digits that ends just before position `i`.
pub open spec fn digit_run_before(s: Seq<char>, i: int) -> nat
    decreases i,
{
    if i <= 0 || i > s.len() || !is_digit(s[i - 1]) {
        0
    } else {
        digit_run_before(s, i - 1) + 1
    }
}

/// Whether no run of decimal digits in `s` is longer than `limit`.
pub open spec fn digit_runs_within(s: Seq<char>, limit: nat) -> bool {
    forall|i: int| 0 <= i <= s.len() ==> #[trigger] digit_run_before(s, i) <= limit
}

/// Whether no run of decimal digits in `s` is longer than `limit`, reading
/// the characters once.
pub fn digit_runs_within_exec(s: &str, limit: usize) -> (r: bool)
    ensures
        r == digit_runs_within(s@, limit as nat),
{
    broadcast use vstd::string::axiom_spec_iter, vstd::string::next_postcondition;

    let n = s.unicode_len();
    let mut it = s.chars();
    let mut i: usize = 0;
    let mut run: usize = 0;
    assert(digit_run_before(s@, 0) == 0);
    loop
        invariant
            n == s@.len(),
            i <= n,
            it.obeys_prophetic_iter_laws(),
            it.remaining() == s@.skip(i as int),
            run == digit_run_before(s@, i as int),
            run <= limit,
            forall|q: int| 0 <= q <= i ==> #[trigger] digit_run_before(s@, q) <= limit,
        decreases n - i,
    {
        let ghost before = it.remaining();
        let c = it.next();
        match c {
            None => {
                assert(s@.skip(i as int).len() == 0);
                return true;
            },
            Some(c) => {
                assert(i < n);
                assert(before[0] == s@[i as int]);
                proof {
                    assert(s@.skip(i as int).drop_first() =~= s@.skip(i + 1));
                }
                if '0' <= c && c <= '9' {
                    if run >= limit {
                        assert(digit_run_before(s@, i + 1) > limit);
                        return false;
                    }
                    run = run + 1;
                } else {
                    run = 0;
                }
                i = i + 1;
            },
        }
    }
}

} // verus!
