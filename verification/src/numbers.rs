//! Decimal text for unsigned integers: parsing (`str::parse`) and printing (`Display`).

use vstd::prelude::*;
use crate::text::push_char;

verus! {

/// `c` is an ASCII decimal digit.
pub open spec fn is_digit(c: char) -> bool {
    '0' <= c && c <= '9'
}

/// Every character of `s` is a decimal digit.
pub open spec fn all_digits(s: Seq<char>) -> bool {
    forall|i: int| 0 <= i < s.len() ==> is_digit(#[trigger] s[i])
}

/// The number written by the digits `s` (most significant first).
pub open spec fn decimal_value(s: Seq<char>) -> nat
    decreases s.len(),
{
    if s.len() == 0 {
        0
    } else {
        10 * decimal_value(s.drop_last()) + ((s.last() as u32) - ('0' as u32)) as nat
    }
}

/// What `str::parse::<uN>` returns for `s`, where `max` is `uN::MAX`: an optional
/// leading `+`, then one or more decimal digits whose value does not exceed `max`.
pub open spec fn parse_unsigned(s: Seq<char>, max: nat) -> Option<nat> {
    let d = if s.len() >= 1 && s[0] == '+' {
        s.drop_first()
    } else {
        s
    };
    if d.len() == 0 || !all_digits(d) || decimal_value(d) > max {
        None
    } else {
        Some(decimal_value(d))
    }
}

/// The character for the decimal digit `d < 10`.
pub open spec fn digit_char(d: nat) -> char {
    ((48 + d) as u32) as char
}

/// The shortest decimal text of `n` (what `Display` prints for an unsigned integer).
pub open spec fn decimal_text(n: nat) -> Seq<char>
    decreases n,
{
    if n < 10 {
        seq![digit_char(n)]
    } else {
        decimal_text(n / 10).push(digit_char(n % 10))
    }
}

proof fn lemma_decimal_value_step(s: Seq<char>, c: char)
    ensures
        decimal_value(s.push(c)) == 10 * decimal_value(s) + ((c as u32) - ('0' as u32)) as nat,
{
    assert(s.push(c).drop_last() =~= s);
}

/// Parses `v[from..]` as decimal digits, returning `None` if a non-digit appears or the
/// value exceeds `max`.
fn parse_digits(v: &[char], from: usize, max: u64) -> (r: Option<u64>)
    requires
        from <= v@.len(),
    ensures
        match r {
            Some(x) => all_digits(v@.subrange(from as int, v@.len() as int)) && x == decimal_value(
                v@.subrange(from as int, v@.len() as int),
            ) && x <= max,
            None => !all_digits(v@.subrange(from as int, v@.len() as int)) || decimal_value(
                v@.subrange(from as int, v@.len() as int),
            ) > max,
        },
{
    let n = v.len();
    let mut acc: u128 = 0;
    let mut i = from;
    assert(v@.subrange(from as int, from as int) =~= Seq::<char>::empty());
    while i < n
        invariant
            from <= i <= n == v@.len(),
            all_digits(v@.subrange(from as int, i as int)),
            acc == decimal_value(v@.subrange(from as int, i as int)),
            acc <= max,
        decreases n - i,
    {
        let c = v[i];
        proof {
            assert(v@.subrange(from as int, i + 1) =~= v@.subrange(from as int, i as int).push(c));
            lemma_decimal_value_step(v@.subrange(from as int, i as int), c);
        }
        if !('0' <= c && c <= '9') {
            proof {
                let t = v@.subrange(from as int, n as int);
                assert(t[i - from] == c);
            }
            return None;
        }
        let d = (c as u32 - '0' as u32) as u128;
        let next = acc * 10 + d;
        if next > max as u128 {
            proof {
                lemma_prefix_value_bound(v@.subrange(from as int, n as int), (i + 1 - from) as int);
                assert(v@.subrange(from as int, n as int).subrange(0, i + 1 - from) =~= v@.subrange(
                    from as int,
                    i + 1,
                ));
            }
            return None;
        }
        acc = next;
        i = i + 1;
    }
    Some(acc as u64)
}

/// The value of a digit prefix never exceeds the value of the whole digit string.
proof fn lemma_prefix_value_bound(s: Seq<char>, k: int)
    requires
        0 <= k <= s.len(),
    ensures
        all_digits(s) ==> decimal_value(s.subrange(0, k)) <= decimal_value(s),
    decreases s.len() - k,
{
    if k < s.len() && all_digits(s) {
        let t = s.drop_last();
        assert(all_digits(t)) by {
            assert forall|i: int| 0 <= i < t.len() implies is_digit(#[trigger] t[i]) by {
                assert(t[i] == s[i]);
            }
        }
        lemma_prefix_value_bound(t, k);
        assert(t.subrange(0, k) =~= s.subrange(0, k));
        assert(is_digit(s[s.len() - 1]));
        assert(s.drop_last() == t);
    } else if k == s.len() {
        assert(s.subrange(0, k) =~= s);
    }
}

/// `str::parse::<u16>` on the characters `v`.
pub fn parse_u16(v: &[char]) -> (r: Option<u16>)
    ensures
        match parse_unsigned(v@, 0xFFFF) {
            Some(x) => r == Some(x as u16),
            None => r is None,
        },
{
    let from: usize = if v.len() >= 1 && v[0] == '+' {
        1
    } else {
        0
    };
    proof {
        if from == 1 {
            assert(v@.subrange(1, v@.len() as int) =~= v@.drop_first());
        } else {
            assert(v@.subrange(0, v@.len() as int) =~= v@);
        }
    }
    if from == v.len() {
        return None;
    }
    match parse_digits(v, from, 0xFFFF) {
        Some(x) => Some(x as u16),
        None => None,
    }
}

/// `str::parse::<u64>` on the characters `v`.
pub fn parse_u64(v: &[char]) -> (r: Option<u64>)
    ensures
        match parse_unsigned(v@, u64::MAX as nat) {
            Some(x) => r == Some(x as u64),
            None => r is None,
        },
{
    let from: usize = if v.len() >= 1 && v[0] == '+' {
        1
    } else {
        0
    };
    proof {
        if from == 1 {
            assert(v@.subrange(1, v@.len() as int) =~= v@.drop_first());
        } else {
            assert(v@.subrange(0, v@.len() as int) =~= v@);
        }
    }
    if from == v.len() {
        return None;
    }
    parse_digits(v, from, u64::MAX)
}

/// Appends the decimal text of `n` to `s`.
pub fn push_decimal(s: &mut String, n: u64)
    ensures
        final(s)@ == old(s)@ + decimal_text(n as nat),
    decreases n,
{
    if n >= 10 {
        push_decimal(s, n / 10);
    }
    let d = (n % 10) as u8;
    let c = (48 + d) as char;
    push_char(s, c);
    assert(final(s)@ =~= old(s)@ + decimal_text(n as nat));
}

} // verus!
