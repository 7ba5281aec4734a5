//! Signed decimal integers in text form.
use vstd::prelude::*;

verus! {

pub open spec fn is_digit(c: char) -> bool {
    '0' <= c && c <= '9'
}

pub open spec fn digit_value(c: char) -> int {
    c as int - '0' as int
}

pub open spec fn all_digits(s: Seq<char>) -> bool {
    forall|i: int| 0 <= i < s.len() ==> is_digit(#[trigger] s[i])
}

/// The value of a run of decimal digits, most significant first.
pub open spec fn digits_value(s: Seq<char>) -> int
    decreases s.len(),
{
    if s.len() == 0 {
        0
    } else {
        digits_value(s.drop_last()) * 10 + digit_value(s.last())
    }
}

/// The integer that `s` writes: an optional `+` or `-`, then one or more
/// ASCII digits, and nothing else.
pub open spec fn decimal_value(s: Seq<char>) -> Option<int> {
    if s.len() > 0 && (s[0] == '-' || s[0] == '+') {
        let d = s.subrange(1, s.len() as int);
        if d.len() > 0 && all_digits(d) {
            Some(if s[0] == '-' { -digits_value(d) } else { digits_value(d) })
        } else {
            None
        }
    } else if s.len() > 0 && all_digits(s) {
        Some(digits_value(s))
    } else {
        None
    }
}

/// What reading `s` as an integer of the range `[lo, hi]` gives: the value it
/// writes if that lies in the range, and nothing otherwise.
pub open spec fn parse_in_range(s: Seq<char>, lo: int, hi: int) -> Option<int> {
    match decimal_value(s) {
        Some(v) => if lo <= v && v <= hi {
            Some(v)
        } else {
            None
        },
        None => None,
    }
}

proof fn lemma_digits_value_nonneg(s: Seq<char>)
    requires
        all_digits(s),
    ensures
        digits_value(s) >= 0,
    decreases s.len(),
{
    if s.len() > 0 {
        lemma_digits_value_nonneg(s.drop_last());
    }
}

/// A run of digits is worth at least any of its prefixes.
proof fn lemma_digits_value_prefix(s: Seq<char>, k: int)
    requires
        all_digits(s),
        0 <= k <= s.len(),
    ensures
        digits_value(s) >= digits_value(s.subrange(0, k)),
    decreases s.len(),
{
    if k < s.len() {
        let t = s.drop_last();
        assert(t.subrange(0, k) =~= s.subrange(0, k));
        lemma_digits_value_prefix(t, k);
        lemma_digits_value_nonneg(t);
    } else {
        assert(s.subrange(0, k) =~= s);
    }
}

/// Reads `s` as an integer of the range `[lo, hi]`, the way std's `FromStr`
/// reads its integer types.
pub fn parse_in(s: &str, lo: i64, hi: i64) -> (r: Option<i64>)
    requires
        lo <= 0 <= hi,
        hi < 0x1_0000_0000_0000,
        -lo < 0x1_0000_0000_0000,
    ensures
        match r {
            Some(v) => parse_in_range(s@, lo as int, hi as int) == Some(v as int),
            None => parse_in_range(s@, lo as int, hi as int) is None,
        },
{
    let n = s.unicode_len();
    if n == 0 {
        return None;
    }
    let first = s.get_char(0);
    let negative = first == '-';
    let start: usize = if first == '-' || first == '+' { 1 } else { 0 };
    if start == n {
        return None;
    }
    let bound: i64 = if negative { -lo } else { hi };
    let ghost d = s@.subrange(start as int, n as int);
    let mut acc: i64 = 0;
    let mut i: usize = start;
    while i < n
        invariant
            s@.len() == n,
            start <= i <= n,
            start == 0 || start == 1,
            start == 1 <==> (s@[0] == '-' || s@[0] == '+'),
            negative <==> s@[0] == '-',
            d == s@.subrange(start as int, n as int),
            all_digits(d.subrange(0, i - start)),
            acc == digits_value(d.subrange(0, i - start)),
            0 <= acc <= bound,
            bound == if negative { -lo } else { hi as int },
            bound < 0x1_0000_0000_0000,
        decreases n - i,
    {
        let c = s.get_char(i);
        if !('0' <= c && c <= '9') {
            proof {
                assert(!is_digit(d[i - start]));
                assert(!all_digits(d));
                if start == 0 {
                    assert(d =~= s@);
                }
            }
            return None;
        }
        let v = (c as u32 - '0' as u32) as i64;
        proof {
            let p = d.subrange(0, i - start + 1);
            assert(p.drop_last() =~= d.subrange(0, i - start));
            assert(p.last() == c);
        }
        let next = acc * 10 + v;
        if next > bound {
            proof {
                let p = d.subrange(0, i - start + 1);
                assert(p.drop_last() =~= d.subrange(0, i - start));
                assert(digits_value(p) == next);
                if all_digits(d) {
                    lemma_digits_value_prefix(d, i - start + 1);
                    assert(digits_value(d) > bound);
                }
                if start == 0 {
                    assert(d =~= s@);
                }
            }
            return None;
        }
        acc = next;
        i = i + 1;
        proof {
            let p = d.subrange(0, i - start);
            assert forall|j: int| 0 <= j < p.len() implies is_digit(#[trigger] p[j]) by {
                if j < p.len() - 1 {
                    assert(p[j] == d.subrange(0, i - start - 1)[j]);
                }
            }
        }
    }
    proof {
        assert(d.subrange(0, i - start) =~= d);
        if start == 0 {
            assert(d =~= s@);
        }
    }
    if negative {
        Some(-acc)
    } else {
        Some(acc)
    }
}

} // verus!
