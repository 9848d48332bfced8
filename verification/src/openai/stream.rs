//! Assembly of a streamed (server-sent events) chat completion into one response.
//!
//! The byte stream is cut into events at the first blank line (`\n\n` or `\r\n\r\n`);
//! each event's `data:` lines are joined; `[DONE]` ends the stream; every other data
//! payload is a JSON chunk (or error) whose decoding is done by the caller and handed
//! back as a [`StreamPayload`], which is folded into an [`OpenAiStreamAccumulator`].

use vstd::prelude::*;
use vstd::utf8::{decode_utf8, valid_utf8};
use crate::text::{
    chars_of, has_prefix, lemma_split_lines_last, lemma_split_lines_step, push_char, split_lines,
    string_of, string_of_range, trim, trimmed, without_trailing, without_trailing_len,
};

verus! {

// ---------------------------------------------------------------------------
// Event framing on bytes
// ---------------------------------------------------------------------------

/// `p` occurs in `s` at index `i`.
pub open spec fn bytes_at(s: Seq<u8>, p: Seq<u8>, i: int) -> bool {
    0 <= i && i + p.len() <= s.len() && s.subrange(i, i + p.len()) == p
}

/// The first index at or after `i` where `p` occurs in `s`.
pub open spec fn first_from(s: Seq<u8>, p: Seq<u8>, i: int) -> Option<int>
    decreases s.len() + 1 - i,
    when 0 <= i <= s.len() + 1
{
    if i + p.len() > s.len() {
        None
    } else if bytes_at(s, p, i) {
        Some(i)
    } else {
        first_from(s, p, i + 1)
    }
}

/// The blank line `\n\n`.
pub open spec fn lf_lf() -> Seq<u8> {
    seq![10u8, 10u8]
}

/// The blank line `\r\n\r\n`.
pub open spec fn crlf_crlf() -> Seq<u8> {
    seq![13u8, 10u8, 13u8, 10u8]
}

/// Where the first event of `buf` ends: the start and end of the earliest blank line.
pub open spec fn event_boundary(buf: Seq<u8>) -> Option<(int, int)> {
    match (first_from(buf, lf_lf(), 0), first_from(buf, crlf_crlf(), 0)) {
        (Some(a), Some(b)) => if a < b {
            Some((a, a + 2))
        } else {
            Some((b, b + 4))
        },
        (Some(a), None) => Some((a, a + 2)),
        (None, Some(b)) => Some((b, b + 4)),
        (None, None) => None,
    }
}

/// Start and end of an event delimiter within a buffer.
pub struct SseDelimiter {
    pub start: usize,
    pub end: usize,
}

/// First index where `p` occurs in `buf`.
fn find_bytes(buf: &[u8], p: &[u8]) -> (r: Option<usize>)
    requires
        p@.len() > 0,
    ensures
        match first_from(buf@, p@, 0) {
            Some(i) => r == Some(i as usize),
            None => r is None,
        },
        r matches Some(k) ==> k + p@.len() <= buf@.len(),
{
    proof {
        lemma_first_from_bounds(buf@, p@, 0);
    }
    let n = buf.len();
    let m = p.len();
    if m > n {
        return None;
    }
    let mut i: usize = 0;
    while i <= n - m
        invariant
            n == buf@.len(),
            m == p@.len(),
            m > 0,
            m <= n,
            i <= n,
            first_from(buf@, p@, 0) == first_from(buf@, p@, i as int),
        decreases n - i,
    {
        let mut k: usize = 0;
        let mut same = true;
        while k < m
            invariant
                n == buf@.len(),
                m == p@.len(),
                i + m <= n,
                k <= m,
                same == (forall|j: int| 0 <= j < k ==> buf@[i + j] == p@[j]),
            decreases m - k,
        {
            if buf[i + k] != p[k] {
                same = false;
            }
            k = k + 1;
        }
        proof {
            if same {
                assert(buf@.subrange(i as int, i + m) =~= p@);
            } else {
                let j = choose|j: int| 0 <= j < m && buf@[i + j] != p@[j];
                assert(buf@.subrange(i as int, i + m)[j] != p@[j]);
            }
        }
        if same {
            return Some(i);
        }
        i = i + 1;
    }
    None
}

/// Finds the earliest event delimiter (`\n\n` or `\r\n\r\n`) in `buffer`.
pub fn find_sse_delimiter(buffer: &[u8]) -> (r: Option<SseDelimiter>)
    ensures
        match event_boundary(buffer@) {
            Some((s, e)) => r matches Some(d) && d.start == s && d.end == e,
            None => r is None,
        },
{
    let lf: Vec<u8> = vec![10u8, 10u8];
    let crlf: Vec<u8> = vec![13u8, 10u8, 13u8, 10u8];
    assert(lf@ =~= lf_lf());
    assert(crlf@ =~= crlf_crlf());
    assert(lf@.len() == 2);
    assert(crlf@.len() == 4);
    let n = buffer.len();
    let a = find_bytes(buffer, lf.as_slice());
    let b = find_bytes(buffer, crlf.as_slice());
    proof {
        lemma_first_from_bounds(buffer@, lf_lf(), 0);
        lemma_first_from_bounds(buffer@, crlf_crlf(), 0);
    }
    match a {
        Some(x) => match b {
            Some(y) => if x < y {
                Some(SseDelimiter { start: x, end: x + 2 })
            } else {
                Some(SseDelimiter { start: y, end: y + 4 })
            },
            None => Some(SseDelimiter { start: x, end: x + 2 }),
        },
        None => match b {
            Some(y) => Some(SseDelimiter { start: y, end: y + 4 }),
            None => None,
        },
    }
}

proof fn lemma_first_from_bounds(s: Seq<u8>, p: Seq<u8>, i: int)
    requires
        0 <= i <= s.len() + 1,
    ensures
        first_from(s, p, i) matches Some(k) ==> i <= k && bytes_at(s, p, k),
    decreases s.len() + 1 - i,
{
    if i + p.len() <= s.len() && !bytes_at(s, p, i) {
        lemma_first_from_bounds(s, p, i + 1);
    }
}

/// Every event boundary lies within the buffer.
pub proof fn lemma_event_boundary_in_range(buf: Seq<u8>)
    ensures
        event_boundary(buf) matches Some((s, e)) ==> 0 <= s < e <= buf.len(),
{
    lemma_first_from_bounds(buf, lf_lf(), 0);
    lemma_first_from_bounds(buf, crlf_crlf(), 0);
}

/// An occurrence of `p` found in `s` is found at the same place once more bytes follow.
proof fn lemma_first_from_extend(s: Seq<u8>, more: Seq<u8>, p: Seq<u8>, i: int)
    requires
        0 <= i <= s.len() + 1,
        first_from(s, p, i) is Some,
    ensures
        first_from(s + more, p, i) == first_from(s, p, i),
    decreases s.len() + 1 - i,
{
    let t = s + more;
    lemma_first_from_bounds(s, p, i);
    assert(i + p.len() <= s.len());
    assert(t.subrange(i, i + p.len()) =~= s.subrange(i, i + p.len()));
    if !bytes_at(s, p, i) {
        lemma_first_from_extend(s, more, p, i + 1);
    }
}

/// Where `p` does not occur in `s` from `i` on, any occurrence in `s + more` from `i` on
/// reaches past the end of `s`.
proof fn lemma_first_from_none_extend(s: Seq<u8>, more: Seq<u8>, p: Seq<u8>, i: int)
    requires
        0 <= i <= s.len() + 1,
        first_from(s, p, i) is None,
    ensures
        first_from(s + more, p, i) matches Some(k) ==> k + p.len() > s.len(),
    decreases s.len() + 1 - i,
{
    let t = s + more;
    if i + p.len() <= s.len() {
        assert(t.subrange(i, i + p.len()) =~= s.subrange(i, i + p.len()));
        lemma_first_from_none_extend(s, more, p, i + 1);
    } else {
        lemma_first_from_bounds(t, p, i);
    }
}

/// Once a complete event is buffered, bytes received later never change where it ends:
/// how the stream was cut into chunks does not change its events.
pub proof fn lemma_event_boundary_stable(buf: Seq<u8>, more: Seq<u8>)
    requires
        event_boundary(buf) is Some,
    ensures
        event_boundary(buf + more) == event_boundary(buf),
{
    let t = buf + more;
    let lf = lf_lf();
    let cr = crlf_crlf();
    lemma_first_from_bounds(buf, lf, 0);
    lemma_first_from_bounds(buf, cr, 0);
    lemma_first_from_bounds(t, lf, 0);
    lemma_first_from_bounds(t, cr, 0);
    match (first_from(buf, lf, 0), first_from(buf, cr, 0)) {
        (Some(a), Some(b)) => {
            lemma_first_from_extend(buf, more, lf, 0);
            lemma_first_from_extend(buf, more, cr, 0);
        },
        (Some(a), None) => {
            lemma_first_from_extend(buf, more, lf, 0);
            lemma_first_from_none_extend(buf, more, cr, 0);
            if let Some(b) = first_from(t, cr, 0) {
                assert(t.subrange(a, a + 2) == lf);
                assert(t.subrange(b, b + 4) == cr);
                assert(t[a] == 10u8 && t[a + 1] == 10u8) by {
                    assert(t.subrange(a, a + 2)[0] == t[a]);
                    assert(t.subrange(a, a + 2)[1] == t[a + 1]);
                }
                if b <= a {
                    assert(t.subrange(b, b + 4)[a - b] == t[a]);
                    assert(t.subrange(b, b + 4)[a + 1 - b] == t[a + 1]);
                }
            }
        },
        (None, Some(b)) => {
            lemma_first_from_extend(buf, more, cr, 0);
            lemma_first_from_none_extend(buf, more, lf, 0);
        },
        (None, None) => {},
    }
}

/// The bytes `v[a..b]` as a new vector.
fn copy_bytes(v: &[u8], a: usize, b: usize) -> (r: Vec<u8>)
    requires
        a <= b <= v@.len(),
    ensures
        r@ == v@.subrange(a as int, b as int),
{
    let mut r: Vec<u8> = Vec::new();
    let mut i = a;
    while i < b
        invariant
            a <= i <= b <= v@.len(),
            r@ == v@.subrange(a as int, i as int),
        decreases b - i,
    {
        r.push(v[i]);
        i = i + 1;
        assert(r@ =~= v@.subrange(a as int, i as int));
    }
    r
}

/// Removes the first complete event from `buffer` and returns its bytes (without the
/// delimiter); `None`, with `buffer` unchanged, when no complete event is buffered.
pub fn drain_next_sse_event(buffer: &mut Vec<u8>) -> (r: Option<Vec<u8>>)
    ensures
        match event_boundary(old(buffer)@) {
            Some((s, e)) => r matches Some(ev) && ev@ == old(buffer)@.subrange(0, s)
                && final(buffer)@ == old(buffer)@.subrange(e, old(buffer)@.len() as int),
            None => r is None && final(buffer)@ == old(buffer)@,
        },
{
    proof {
        lemma_event_boundary_in_range(buffer@);
    }
    match find_sse_delimiter(buffer.as_slice()) {
        None => None,
        Some(d) => {
            let event = copy_bytes(buffer.as_slice(), 0, d.start);
            let rest = copy_bytes(buffer.as_slice(), d.end, buffer.len());
            *buffer = rest;
            Some(event)
        },
    }
}

// ---------------------------------------------------------------------------
// Event data lines
// ---------------------------------------------------------------------------

/// The payload of one event line: for a `data:` line (after trailing `\r`s are removed),
/// the rest of the line without one leading space; `None` for comments (`:`) and other
/// fields.
pub open spec fn line_data(line: Seq<char>) -> Option<Seq<char>> {
    let l = without_trailing(line, '\r');
    if has_prefix(l, seq![':']) {
        None
    } else if has_prefix(l, seq!['d', 'a', 't', 'a', ':']) {
        let rest = l.subrange(5, l.len() as int);
        if has_prefix(rest, seq![' ']) {
            Some(rest.drop_first())
        } else {
            Some(rest)
        }
    } else {
        None
    }
}

/// The data payloads of `lines`, in order.
pub open spec fn data_of_lines(lines: Seq<Seq<char>>) -> Seq<Seq<char>>
    decreases lines.len(),
{
    if lines.len() == 0 {
        Seq::empty()
    } else {
        let rest = data_of_lines(lines.drop_last());
        match line_data(lines.last()) {
            Some(d) => rest.push(d),
            None => rest,
        }
    }
}

/// `parts` joined with `\n` between consecutive parts.
pub open spec fn join_lines(parts: Seq<Seq<char>>) -> Seq<char>
    decreases parts.len(),
{
    if parts.len() == 0 {
        Seq::empty()
    } else if parts.len() == 1 {
        parts[0]
    } else {
        join_lines(parts.drop_last()) + seq!['\n'] + parts.last()
    }
}

/// The data of an event: its `data:` payloads joined by `\n`, or `None` if it has none.
pub open spec fn event_data(text: Seq<char>) -> Option<Seq<char>> {
    let parts = data_of_lines(split_lines(text));
    if parts.len() == 0 {
        None
    } else {
        Some(join_lines(parts))
    }
}

/// The payload of the line `v[a..b]` (see [`line_data`]).
fn line_data_exec(v: &[char], a: usize, b: usize) -> (r: Option<String>)
    requires
        a <= b <= v@.len(),
    ensures
        opt_string_view(r) == line_data(v@.subrange(a as int, b as int)),
{
    let ghost line = v@.subrange(a as int, b as int);
    let line_v = copy_chars(v, a, b);
    let n = without_trailing_len(line_v.as_slice(), '\r');
    let ghost l = without_trailing(line, '\r');
    assert(l =~= line_v@.subrange(0, n as int));
    if n >= 1 && line_v[0] == ':' {
        assert(l.subrange(0, 1) =~= seq![':']);
        return None;
    }
    assert(!has_prefix(l, seq![':'])) by {
        if l.len() >= 1 {
            assert(l.subrange(0, 1)[0] == l[0]);
        }
    }
    if n >= 5 && line_v[0] == 'd' && line_v[1] == 'a' && line_v[2] == 't' && line_v[3] == 'a'
        && line_v[4] == ':' {
        assert(l.subrange(0, 5) =~= seq!['d', 'a', 't', 'a', ':']);
        let ghost rest = l.subrange(5, l.len() as int);
        if n >= 6 && line_v[5] == ' ' {
            assert(rest.subrange(0, 1) =~= seq![' ']);
            assert(rest.drop_first() =~= line_v@.subrange(6, n as int));
            return Some(string_of_range(line_v.as_slice(), 6, n));
        }
        assert(!has_prefix(rest, seq![' '])) by {
            if rest.len() >= 1 {
                assert(rest.subrange(0, 1)[0] == rest[0]);
            }
        }
        assert(rest =~= line_v@.subrange(5, n as int));
        return Some(string_of_range(line_v.as_slice(), 5, n));
    }
    assert(!has_prefix(l, seq!['d', 'a', 't', 'a', ':'])) by {
        if l.len() >= 5 {
            let p = l.subrange(0, 5);
            assert(p[0] == l[0] && p[1] == l[1] && p[2] == l[2] && p[3] == l[3] && p[4] == l[4]);
        }
    }
    None
}

/// The view of an optional string.
pub open spec fn opt_string_view(o: Option<String>) -> Option<Seq<char>> {
    match o {
        Some(s) => Some(s@),
        None => None,
    }
}

/// The characters `v[a..b]` as a new vector.
fn copy_chars(v: &[char], a: usize, b: usize) -> (r: Vec<char>)
    requires
        a <= b <= v@.len(),
    ensures
        r@ == v@.subrange(a as int, b as int),
{
    let mut r: Vec<char> = Vec::new();
    let mut i = a;
    while i < b
        invariant
            a <= i <= b <= v@.len(),
            r@ == v@.subrange(a as int, i as int),
        decreases b - i,
    {
        r.push(v[i]);
        i = i + 1;
        assert(r@ =~= v@.subrange(a as int, i as int));
    }
    r
}

proof fn lemma_data_of_lines_push(lines: Seq<Seq<char>>, l: Seq<char>)
    ensures
        data_of_lines(lines.push(l)) == match line_data(l) {
            Some(d) => data_of_lines(lines).push(d),
            None => data_of_lines(lines),
        },
{
    assert(lines.push(l).drop_last() =~= lines);
}

proof fn lemma_join_push(parts: Seq<Seq<char>>, d: Seq<char>)
    requires
        parts.len() > 0,
    ensures
        join_lines(parts.push(d)) == join_lines(parts) + seq!['\n'] + d,
{
    assert(parts.push(d).drop_last() =~= parts);
}

/// Data of one event text (see [`event_data`]): the `data:` payloads of its lines, joined
/// by `\n`; `None` if it has no `data:` line.
pub fn sse_event_data(event: &str) -> (r: Option<String>)
    ensures
        opt_string_view(r) == event_data(event@),
{
    let v = chars_of(event);
    let n = v.len();
    let ghost s = v@;
    let mut joined = String::new();
    let mut has_data = false;
    let mut start: usize = 0;
    let mut i: usize = 0;
    let ghost mut done_lines: Seq<Seq<char>> = Seq::empty();
    assert(s.subrange(0, n as int) =~= s);
    while i < n
        invariant
            n == s.len(),
            s == v@,
            s == event@,
            start <= i <= n,
            forall|j: int| start <= j < i ==> #[trigger] s[j] != '\n',
            done_lines + split_lines(s.subrange(start as int, n as int)) == split_lines(s),
            has_data == (data_of_lines(done_lines).len() > 0),
            has_data ==> joined@ == join_lines(data_of_lines(done_lines)),
            !has_data ==> joined@ == Seq::<char>::empty(),
        decreases n - i,
    {
        if v[i] == '\n' {
            proof {
                lemma_split_lines_step(s, start as int, i as int);
                lemma_data_of_lines_push(done_lines, s.subrange(start as int, i as int));
            }
            let d = line_data_exec(v.as_slice(), start, i);
            match d {
                Some(d) => {
                    proof {
                        if has_data {
                            lemma_join_push(data_of_lines(done_lines), d@);
                        } else {
                            assert(data_of_lines(done_lines).push(d@) =~= seq![d@]);
                        }
                    }
                    if has_data {
                        push_char(&mut joined, '\n');
                    }
                    joined.append(d.as_str());
                    has_data = true;
                },
                None => {},
            }
            proof {
                done_lines = done_lines.push(s.subrange(start as int, i as int));
                assert(done_lines + split_lines(s.subrange(i + 1, n as int)) =~= split_lines(s));
            }
            start = i + 1;
        }
        i = i + 1;
    }
    if start < n {
        proof {
            lemma_split_lines_last(s, start as int);
            lemma_data_of_lines_push(done_lines, s.subrange(start as int, n as int));
        }
        let d = line_data_exec(v.as_slice(), start, n);
        match d {
            Some(d) => {
                proof {
                    if has_data {
                        lemma_join_push(data_of_lines(done_lines), d@);
                    } else {
                        assert(data_of_lines(done_lines).push(d@) =~= seq![d@]);
                    }
                }
                if has_data {
                    push_char(&mut joined, '\n');
                }
                joined.append(d.as_str());
                has_data = true;
            },
            None => {},
        }
        proof {
            done_lines = done_lines.push(s.subrange(start as int, n as int));
            assert(done_lines =~= split_lines(s));
        }
    } else {
        proof {
            assert(s.subrange(start as int, n as int) =~= Seq::<char>::empty());
            assert(done_lines =~= split_lines(s));
        }
    }
    if !has_data {
        None
    } else {
        Some(joined)
    }
}

} // verus!
