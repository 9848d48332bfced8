//! The order of strings (`Ord for str`): lexicographic by character, which is the
//! byte-wise order of their UTF-8 encodings.

use vstd::prelude::*;

verus! {

/// `a` sorts strictly before `b`.
pub open spec fn str_lt(a: Seq<char>, b: Seq<char>) -> bool
    decreases a.len(),
{
    if a.len() == 0 {
        b.len() > 0
    } else if b.len() == 0 {
        false
    } else if a[0] != b[0] {
        a[0] < b[0]
    } else {
        str_lt(a.drop_first(), b.drop_first())
    }
}

/// No string sorts before itself.
pub proof fn lemma_str_lt_irreflexive(a: Seq<char>)
    ensures
        !str_lt(a, a),
    decreases a.len(),
{
    if a.len() > 0 {
        lemma_str_lt_irreflexive(a.drop_first());
    }
}

/// Two different strings are ordered one way and not the other.
pub proof fn lemma_str_lt_total(a: Seq<char>, b: Seq<char>)
    ensures
        a != b ==> (str_lt(a, b) || str_lt(b, a)),
        !(str_lt(a, b) && str_lt(b, a)),
    decreases a.len(),
{
    if a.len() > 0 && b.len() > 0 {
        if a[0] == b[0] {
            lemma_str_lt_total(a.drop_first(), b.drop_first());
            if a != b {
                assert(a.drop_first() != b.drop_first()) by {
                    if a.drop_first() == b.drop_first() {
                        assert(a =~= seq![a[0]] + a.drop_first());
                        assert(b =~= seq![b[0]] + b.drop_first());
                    }
                }
            }
        } else {
        }
    } else if a.len() == 0 && b.len() == 0 {
        assert(a =~= b);
    }
}

/// The order is transitive.
pub proof fn lemma_str_lt_transitive(a: Seq<char>, b: Seq<char>, c: Seq<char>)
    requires
        str_lt(a, b),
        str_lt(b, c),
    ensures
        str_lt(a, c),
    decreases a.len(),
{
    if a.len() > 0 && b.len() > 0 && c.len() > 0 {
        if a[0] == b[0] && b[0] == c[0] {
            lemma_str_lt_transitive(a.drop_first(), b.drop_first(), c.drop_first());
        }
    }
}

/// Whether `a` sorts strictly before `b`.
pub fn chars_less(a: &[char], b: &[char]) -> (r: bool)
    ensures
        r == str_lt(a@, b@),
{
    let n = a.len();
    let m = b.len();
    let mut i: usize = 0;
    assert(a@.skip(0) =~= a@);
    assert(b@.skip(0) =~= b@);
    while i < n && i < m && a[i] == b[i]
        invariant
            n == a@.len(),
            m == b@.len(),
            i <= n,
            i <= m,
            forall|k: int| 0 <= k < i ==> a@[k] == b@[k],
            str_lt(a@, b@) == str_lt(a@.skip(i as int), b@.skip(i as int)),
        decreases n - i,
    {
        proof {
            let x = a@.skip(i as int);
            let y = b@.skip(i as int);
            assert(x.drop_first() =~= a@.skip(i + 1));
            assert(y.drop_first() =~= b@.skip(i + 1));
        }
        i = i + 1;
    }
    proof {
        let x = a@.skip(i as int);
        let y = b@.skip(i as int);
        if i < n && i < m {
            assert(x[0] == a@[i as int] && y[0] == b@[i as int]);
        }
    }
    if i == n {
        i < m
    } else if i == m {
        false
    } else {
        a[i] < b[i]
    }
}

} // verus!
