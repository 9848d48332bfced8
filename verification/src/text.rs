//! Character-level helpers over strings, each proved against a spec on `Seq<char>`.

use vstd::prelude::*;

verus! {

/// Unicode `White_Space` property, as used by `char::is_whitespace` and `str::trim`.
pub open spec fn is_ws(c: char) -> bool {
    let u = c as u32;
    ||| (0x9 <= u && u <= 0xD)
    ||| u == 0x20
    ||| u == 0x85
    ||| u == 0xA0
    ||| u == 0x1680
    ||| (0x2000 <= u && u <= 0x200A)
    ||| u == 0x2028
    ||| u == 0x2029
    ||| u == 0x202F
    ||| u == 0x205F
    ||| u == 0x3000
}

/// Whether `c` is Unicode white space.
pub fn is_whitespace(c: char) -> (b: bool)
    ensures
        b == is_ws(c),
{
    let u = c as u32;
    (0x9 <= u && u <= 0xD) || u == 0x20 || u == 0x85 || u == 0xA0 || u == 0x1680 || (0x2000
        <= u && u <= 0x200A) || u == 0x2028 || u == 0x2029 || u == 0x202F || u == 0x205F || u
        == 0x3000
}

/// Number of leading white-space characters of `s`.
pub open spec fn lead_ws(s: Seq<char>) -> nat
    decreases s.len(),
{
    if s.len() == 0 {
        0
    } else if is_ws(s[0]) {
        1 + lead_ws(s.drop_first())
    } else {
        0
    }
}

/// Number of trailing white-space characters of `s`.
pub open spec fn trail_ws(s: Seq<char>) -> nat
    decreases s.len(),
{
    if s.len() == 0 {
        0
    } else if is_ws(s.last()) {
        1 + trail_ws(s.drop_last())
    } else {
        0
    }
}

/// `s` without leading and trailing white space (what `str::trim` returns).
pub open spec fn trimmed(s: Seq<char>) -> Seq<char> {
    let a = lead_ws(s) as int;
    let b = s.len() - trail_ws(s);
    if a >= b {
        Seq::empty()
    } else {
        s.subrange(a, b)
    }
}

/// Number of trailing copies of `c` at the end of `s`.
pub open spec fn trail_char(s: Seq<char>, c: char) -> nat
    decreases s.len(),
{
    if s.len() == 0 {
        0
    } else if s.last() == c {
        1 + trail_char(s.drop_last(), c)
    } else {
        0
    }
}

/// `s` without any trailing copies of `c` (what `str::trim_end_matches(c)` returns).
pub open spec fn without_trailing(s: Seq<char>, c: char) -> Seq<char> {
    s.subrange(0, s.len() - trail_char(s, c))
}

/// `p` is a prefix of `s`.
pub open spec fn has_prefix(s: Seq<char>, p: Seq<char>) -> bool {
    p.len() <= s.len() && s.subrange(0, p.len() as int) == p
}

/// `p` is a suffix of `s`.
pub open spec fn has_suffix(s: Seq<char>, p: Seq<char>) -> bool {
    p.len() <= s.len() && s.subrange(s.len() - p.len(), s.len() as int) == p
}

/// `p` occurs in `s` starting at index `i`.
pub open spec fn occurs_at(s: Seq<char>, p: Seq<char>, i: int) -> bool {
    0 <= i && i + p.len() <= s.len() && s.subrange(i, i + p.len()) == p
}

/// `p` occurs somewhere in `s`.
pub open spec fn has_infix(s: Seq<char>, p: Seq<char>) -> bool {
    exists|i: int| occurs_at(s, p, i)
}

/// The lower-case mapping of `s`, as computed by `str::to_lowercase` (Unicode's
/// `Lowercase` property, with the final-sigma rule); nothing more is stated of it.
pub uninterp spec fn lowercase(s: Seq<char>) -> Seq<char>;

/// Trusted: `String::push` appends the character `c` at the end of `s` and changes
/// nothing else, as std documents.
#[verifier::external_body]
pub(crate) fn push_char(s: &mut String, c: char)
    ensures
        final(s)@ == old(s)@.push(c),
{
    s.push(c);
}

/// Trusted: `str::to_lowercase` returns the lower-case mapping of `s`, a function of
/// `s` alone, named [`lowercase`]; nothing else is claimed of it.
#[verifier::external_body]
pub(crate) fn to_lowercase(s: &str) -> (r: String)
    ensures
        r@ == lowercase(s@),
{
    s.to_lowercase()
}

/// The characters of `s`, in order.
pub fn chars_of(s: &str) -> (v: Vec<char>)
    ensures
        v@ == s@,
{
    let mut v: Vec<char> = Vec::new();
    for c in it: s.chars()
        invariant
            v@ == it.seq().take(it.index() as int),
    {
        v.push(c);
    }
    v
}

/// The string made of the characters `v[from..to]`.
pub fn string_of_range(v: &[char], from: usize, to: usize) -> (r: String)
    requires
        from <= to <= v@.len(),
    ensures
        r@ == v@.subrange(from as int, to as int),
{
    let mut r = String::new();
    let mut i = from;
    while i < to
        invariant
            from <= i <= to <= v@.len(),
            r@ == v@.subrange(from as int, i as int),
        decreases to - i,
    {
        push_char(&mut r, v[i]);
        i = i + 1;
        assert(r@ =~= v@.subrange(from as int, i as int));
    }
    r
}

/// The string made of all characters of `v`.
pub fn string_of(v: &[char]) -> (r: String)
    ensures
        r@ == v@,
{
    let r = string_of_range(v, 0, v.len());
    assert(v@.subrange(0, v@.len() as int) =~= v@);
    r
}

proof fn lemma_lead_ws(s: Seq<char>, i: int)
    requires
        0 <= i <= s.len(),
        forall|k: int| 0 <= k < i ==> is_ws(#[trigger] s[k]),
        i == s.len() || !is_ws(s[i]),
    ensures
        lead_ws(s) == i,
    decreases i,
{
    if i > 0 {
        let t = s.drop_first();
        assert forall|k: int| 0 <= k < i - 1 implies is_ws(#[trigger] t[k]) by {
            assert(t[k] == s[k + 1]);
        }
        if i < s.len() {
            assert(t[i - 1] == s[i]);
        }
        lemma_lead_ws(t, i - 1);
    }
}

proof fn lemma_trail_ws(s: Seq<char>, j: int)
    requires
        0 <= j <= s.len(),
        forall|k: int| j <= k < s.len() ==> is_ws(#[trigger] s[k]),
        j == 0 || !is_ws(s[j - 1]),
    ensures
        trail_ws(s) == s.len() - j,
    decreases s.len() - j,
{
    if j < s.len() {
        let t = s.drop_last();
        assert forall|k: int| j <= k < t.len() implies is_ws(#[trigger] t[k]) by {
            assert(t[k] == s[k]);
        }
        if j > 0 {
            assert(t[j - 1] == s[j - 1]);
        }
        lemma_trail_ws(t, j);
    }
}

proof fn lemma_trail_char(s: Seq<char>, c: char, j: int)
    requires
        0 <= j <= s.len(),
        forall|k: int| j <= k < s.len() ==> #[trigger] s[k] == c,
        j == 0 || s[j - 1] != c,
    ensures
        trail_char(s, c) == s.len() - j,
    decreases s.len() - j,
{
    if j < s.len() {
        let t = s.drop_last();
        assert forall|k: int| j <= k < t.len() implies #[trigger] t[k] == c by {
            assert(t[k] == s[k]);
        }
        if j > 0 {
            assert(t[j - 1] == s[j - 1]);
        }
        lemma_trail_char(t, c, j);
    }
}

/// Bounds `[a, b)` of the trimmed part of `v`: `trimmed(v@) == v@[a..b]`.
pub fn trim_bounds(v: &[char]) -> (r: (usize, usize))
    ensures
        r.0 <= r.1 <= v@.len(),
        trimmed(v@) == v@.subrange(r.0 as int, r.1 as int),
{
    let n = v.len();
    let mut a: usize = 0;
    while a < n && is_whitespace(v[a])
        invariant
            a <= n == v@.len(),
            forall|k: int| 0 <= k < a ==> is_ws(#[trigger] v@[k]),
        decreases n - a,
    {
        a = a + 1;
    }
    proof {
        lemma_lead_ws(v@, a as int);
    }
    if a == n {
        proof {
            lemma_trail_ws(v@, 0);
        }
        return (n, n);
    }
    let mut b: usize = n;
    while b > a && is_whitespace(v[b - 1])
        invariant
            a < n == v@.len(),
            a <= b <= n,
            !is_ws(v@[a as int]),
            forall|k: int| b <= k < n ==> is_ws(#[trigger] v@[k]),
        decreases b,
    {
        b = b - 1;
    }
    proof {
        lemma_trail_ws(v@, b as int);
    }
    (a, b)
}

/// `s` without leading and trailing white space (`str::trim`).
pub fn trim(s: &str) -> (r: String)
    ensures
        r@ == trimmed(s@),
{
    let v = chars_of(s);
    let (a, b) = trim_bounds(v.as_slice());
    string_of_range(v.as_slice(), a, b)
}

/// Length of `v` once trailing copies of `c` are removed.
pub fn without_trailing_len(v: &[char], c: char) -> (n: usize)
    ensures
        n <= v@.len(),
        without_trailing(v@, c) == v@.subrange(0, n as int),
{
    let mut b = v.len();
    while b > 0 && v[b - 1] == c
        invariant
            b <= v@.len(),
            forall|k: int| b <= k < v@.len() ==> #[trigger] v@[k] == c,
        decreases b,
    {
        b = b - 1;
    }
    proof {
        lemma_trail_char(v@, c, b as int);
    }
    b
}

/// Whether `p` occurs in `v` at index `i`.
pub fn occurs_at_exec(v: &[char], p: &[char], i: usize) -> (b: bool)
    ensures
        b == occurs_at(v@, p@, i as int),
{
    if i > v.len() || p.len() > v.len() - i {
        return false;
    }
    let n = v.len();
    let mut k: usize = 0;
    while k < p.len()
        invariant
            n == v@.len(),
            i + p@.len() <= v@.len(),
            k <= p@.len(),
            forall|j: int| 0 <= j < k ==> v@[i + j] == p@[j],
        decreases p.len() - k,
    {
        if v[i + k] != p[k] {
            assert(v@.subrange(i as int, i + p@.len())[k as int] != p@[k as int]);
            return false;
        }
        k = k + 1;
    }
    assert(v@.subrange(i as int, i + p@.len()) =~= p@);
    true
}

/// Whether `v` starts with `p`.
pub fn starts_with(v: &[char], p: &[char]) -> (b: bool)
    ensures
        b == has_prefix(v@, p@),
{
    occurs_at_exec(v, p, 0)
}

/// Whether `v` ends with `p`.
pub fn ends_with(v: &[char], p: &[char]) -> (b: bool)
    ensures
        b == has_suffix(v@, p@),
{
    if p.len() > v.len() {
        return false;
    }
    occurs_at_exec(v, p, v.len() - p.len())
}

/// Whether `p` occurs in `v`.
pub fn contains(v: &[char], p: &[char]) -> (b: bool)
    ensures
        b == has_infix(v@, p@),
{
    if p.len() > v.len() {
        assert forall|i: int| !occurs_at(v@, p@, i) by {}
        return false;
    }
    if p.len() == 0 {
        assert(v@.subrange(0, 0) =~= p@);
        assert(occurs_at(v@, p@, 0));
        return true;
    }
    let count = v.len() - p.len() + 1;
    let mut i: usize = 0;
    while i < count
        invariant
            count + p@.len() == v@.len() + 1,
            i <= count,
            forall|j: int| 0 <= j < i ==> !occurs_at(v@, p@, j),
        decreases count - i,
    {
        if occurs_at_exec(v, p, i) {
            return true;
        }
        i = i + 1;
    }
    false
}

/// Whether the string `s` contains `p`.
pub fn str_contains(s: &str, p: &str) -> (b: bool)
    ensures
        b == has_infix(s@, p@),
{
    let v = chars_of(s);
    let w = chars_of(p);
    contains(v.as_slice(), w.as_slice())
}

// ---------------------------------------------------------------------------
// Lines
// ---------------------------------------------------------------------------

/// Length of the first line of `s` (characters before the first `\n`).
pub open spec fn line_len(s: Seq<char>) -> nat
    decreases s.len(),
{
    if s.len() == 0 {
        0
    } else if s[0] == '\n' {
        0
    } else {
        1 + line_len(s.drop_first())
    }
}

pub proof fn lemma_line_len_bound(s: Seq<char>)
    ensures
        line_len(s) <= s.len(),
        line_len(s) < s.len() ==> s[line_len(s) as int] == '\n',
        forall|j: int| 0 <= j < line_len(s) ==> s[j] != '\n',
    decreases s.len(),
{
    if s.len() > 0 && s[0] != '\n' {
        let t = s.drop_first();
        lemma_line_len_bound(t);
        assert forall|j: int| 0 <= j < line_len(s) implies s[j] != '\n' by {
            if j > 0 {
                assert(s[j] == t[j - 1]);
            }
        }
    }
}

pub proof fn lemma_line_len_is(s: Seq<char>, i: int)
    requires
        0 <= i <= s.len(),
        forall|j: int| 0 <= j < i ==> #[trigger] s[j] != '\n',
        i == s.len() || s[i] == '\n',
    ensures
        line_len(s) == i,
    decreases i,
{
    if i > 0 {
        let t = s.drop_first();
        assert forall|j: int| 0 <= j < i - 1 implies #[trigger] t[j] != '\n' by {
            assert(t[j] == s[j + 1]);
        }
        if i < s.len() {
            assert(t[i - 1] == s[i]);
        }
        lemma_line_len_is(t, i - 1);
    }
}

/// The lines of `s` as `str::lines` splits them at `\n` (a final `\n` ends the last line
/// rather than starting an empty one; line terminators are not included).
pub open spec fn split_lines(s: Seq<char>) -> Seq<Seq<char>>
    decreases s.len(),
{
    if s.len() == 0 {
        Seq::empty()
    } else {
        let k = line_len(s) as int;
        proof {
            lemma_line_len_bound(s);
        }
        if k >= s.len() {
            seq![s]
        } else {
            seq![s.subrange(0, k)] + split_lines(s.subrange(k + 1, s.len() as int))
        }
    }
}

pub proof fn lemma_split_lines_step(s: Seq<char>, start: int, i: int)
    requires
        0 <= start <= i < s.len(),
        s[i] == '\n',
        forall|j: int| start <= j < i ==> #[trigger] s[j] != '\n',
    ensures
        split_lines(s.subrange(start, s.len() as int)) == seq![s.subrange(start, i)]
            + split_lines(s.subrange(i + 1, s.len() as int)),
{
    let t = s.subrange(start, s.len() as int);
    assert forall|j: int| 0 <= j < i - start implies #[trigger] t[j] != '\n' by {
        assert(t[j] == s[start + j]);
    }
    assert(t[i - start] == s[i]);
    lemma_line_len_is(t, i - start);
    assert(t.subrange(0, i - start) =~= s.subrange(start, i));
    assert(t.subrange(i - start + 1, t.len() as int) =~= s.subrange(i + 1, s.len() as int));
}

pub proof fn lemma_split_lines_last(s: Seq<char>, start: int)
    requires
        0 <= start < s.len(),
        forall|j: int| start <= j < s.len() ==> #[trigger] s[j] != '\n',
    ensures
        split_lines(s.subrange(start, s.len() as int)) == seq![s.subrange(start, s.len() as int)],
{
    let t = s.subrange(start, s.len() as int);
    assert forall|j: int| 0 <= j < t.len() implies #[trigger] t[j] != '\n' by {
        assert(t[j] == s[start + j]);
    }
    lemma_line_len_is(t, t.len() as int);
}

/// The views of a list of strings.
pub open spec fn views_of(v: Seq<String>) -> Seq<Seq<char>> {
    v.map_values(|x: String| x@)
}

/// The lines of `s` (see [`split_lines`]).
pub fn lines_of(s: &str) -> (r: Vec<String>)
    ensures
        views_of(r@) == split_lines(s@),
{
    let v = chars_of(s);
    let n = v.len();
    let ghost sv = v@;
    let mut out: Vec<String> = Vec::new();
    let mut start: usize = 0;
    let mut i: usize = 0;
    assert(sv.subrange(0, n as int) =~= sv);
    while i < n
        invariant
            n == sv.len(),
            sv == v@,
            sv == s@,
            start <= i <= n,
            forall|j: int| start <= j < i ==> #[trigger] sv[j] != '\n',
            views_of(out@) + split_lines(sv.subrange(start as int, n as int)) == split_lines(sv),
        decreases n - i,
    {
        if v[i] == '\n' {
            proof {
                lemma_split_lines_step(sv, start as int, i as int);
            }
            let line = string_of_range(v.as_slice(), start, i);
            let ghost before = views_of(out@);
            out.push(line);
            proof {
                assert(views_of(out@) =~= before.push(sv.subrange(start as int, i as int)));
                assert(views_of(out@) + split_lines(sv.subrange(i + 1, n as int)) =~= split_lines(
                    sv,
                ));
            }
            start = i + 1;
        }
        i = i + 1;
    }
    if start < n {
        proof {
            lemma_split_lines_last(sv, start as int);
        }
        let line = string_of_range(v.as_slice(), start, n);
        let ghost before = views_of(out@);
        out.push(line);
        proof {
            assert(views_of(out@) =~= before.push(sv.subrange(start as int, n as int)));
            assert(views_of(out@) =~= split_lines(sv));
        }
    } else {
        proof {
            assert(sv.subrange(start as int, n as int) =~= Seq::<char>::empty());
            assert(views_of(out@) =~= split_lines(sv));
        }
    }
    out
}

} // verus!
