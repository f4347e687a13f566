//! Decimal integers in request parameters.
use vstd::prelude::*;
use crate::text::chars_of;

verus! {

pub open spec fn is_digit(c: char) -> bool {
    '0' <= c && c <= '9'
}

pub open spec fn digit_value(c: char) -> nat {
    ((c as u32) - 48) as nat
}

pub open spec fn all_digits(s: Seq<char>) -> bool {
    forall|i: int| 0 <= i < s.len() ==> is_digit(#[trigger] s[i])
}

/// The number that a run of decimal digits denotes.
pub open spec fn digits_value(s: Seq<char>) -> nat
    decreases s.len(),
{
    if s.len() == 0 {
        0
    } else {
        digits_value(s.drop_last()) * 10 + digit_value(s.last())
    }
}

/// The digits after an optional leading sign character `sign`.
pub open spec fn unsigned_part(s: Seq<char>, sign: char) -> Seq<char> {
    if s.len() > 0 && s[0] == sign {
        s.drop_first()
    } else {
        s
    }
}

/// The value of a decimal natural number, optionally preceded by `+`; none
/// for any other text.
pub open spec fn natural_value(s: Seq<char>) -> Option<nat> {
    let t = unsigned_part(s, '+');
    if t.len() > 0 && all_digits(t) {
        Some(digits_value(t))
    } else {
        None
    }
}

/// The value of a decimal integer, optionally preceded by `+` or `-`; none
/// for any other text.
pub open spec fn integer_value(s: Seq<char>) -> Option<int> {
    if s.len() > 0 && s[0] == '-' {
        let t = s.drop_first();
        if t.len() > 0 && all_digits(t) {
            Some(-(digits_value(t) as int))
        } else {
            None
        }
    } else {
        match natural_value(s) {
            Some(v) => Some(v as int),
            None => None,
        }
    }
}

proof fn lemma_digits_monotone(s: Seq<char>, j: int, k: int)
    requires
        0 <= j <= k <= s.len(),
    ensures
        digits_value(s.subrange(0, j)) <= digits_value(s.subrange(0, k)),
    decreases k - j,
{
    if j < k {
        lemma_digits_monotone(s, j, k - 1);
        assert(s.subrange(0, k).drop_last() =~= s.subrange(0, k - 1));
    }
}

/// The value of the digits `v[from..]`, when all are digits and the value
/// is at most `bound`.
fn digits_upto(v: &Vec<char>, from: usize, bound: u64) -> (r: Option<u64>)
    requires
        from <= v.len(),
    ensures
        match r {
            Some(n) => all_digits(v@.subrange(from as int, v@.len() as int)) && n == digits_value(
                v@.subrange(from as int, v@.len() as int),
            ) && n <= bound,
            None => !all_digits(v@.subrange(from as int, v@.len() as int)) || digits_value(
                v@.subrange(from as int, v@.len() as int),
            ) > bound,
        },
{
    let ghost t = v@.subrange(from as int, v@.len() as int);
    let mut i: usize = from;
    while i < v.len()
        invariant
            from <= i <= v.len(),
            t == v@.subrange(from as int, v@.len() as int),
            forall|k: int| from <= k < i ==> is_digit(#[trigger] v@[k]),
        decreases v.len() - i,
    {
        if !('0' <= v[i] && v[i] <= '9') {
            assert(!is_digit(t[i - from]));
            return None;
        }
        i = i + 1;
    }
    assert(all_digits(t)) by {
        assert forall|k: int| 0 <= k < t.len() implies is_digit(#[trigger] t[k]) by {
            assert(t[k] == v@[from + k]);
        }
    }
    let mut acc: u64 = 0;
    let mut j: usize = from;
    while j < v.len()
        invariant
            from <= j <= v.len(),
            t == v@.subrange(from as int, v@.len() as int),
            all_digits(t),
            acc == digits_value(t.subrange(0, j - from)),
            acc <= bound,
        decreases v.len() - j,
    {
        assert(is_digit(t[j - from]));
        let d = (v[j] as u32 - 48) as u64;
        assert(t.subrange(0, j - from + 1).drop_last() =~= t.subrange(0, j - from));
        assert(d == digit_value(t[j - from]));
        if d > bound || acc > (bound - d) / 10 {
            proof {
                if d <= bound {
                    assert(acc * 10 + d > bound) by (nonlinear_arith)
                        requires
                            acc > (bound - d) / 10,
                            d <= bound,
                    ;
                }
                lemma_digits_monotone(t, j - from + 1, t.len() as int);
                assert(t.subrange(0, t.len() as int) =~= t);
            }
            return None;
        }
        assert(acc * 10 + d <= bound) by (nonlinear_arith)
            requires
                acc <= (bound - d) / 10,
                d <= bound,
        ;
        acc = acc * 10 + d;
        j = j + 1;
    }
    assert(t.subrange(0, t.len() as int) =~= t);
    Some(acc)
}

/// Reads a decimal `u64`, as `str::parse` does: an optional `+`, then digits.
pub fn parse_u64(s: &String) -> (r: Option<u64>)
    ensures
        r == match natural_value(s@) {
            Some(v) => if v <= u64::MAX {
                Some(v as u64)
            } else {
                None::<u64>
            },
            None => None::<u64>,
        },
{
    let v = chars_of(s.as_str());
    let from: usize = if v.len() > 0 && v[0] == '+' {
        1
    } else {
        0
    };
    assert(unsigned_part(s@, '+') =~= v@.subrange(from as int, v@.len() as int));
    if from == v.len() {
        return None;
    }
    digits_upto(&v, from, u64::MAX)
}

/// Reads a decimal `usize`: an optional `+`, then digits.
pub fn parse_usize(s: &String) -> (r: Option<usize>)
    ensures
        r == match natural_value(s@) {
            Some(v) => if v <= usize::MAX {
                Some(v as usize)
            } else {
                None::<usize>
            },
            None => None::<usize>,
        },
{
    match parse_u64(s) {
        Some(n) => if n <= usize::MAX as u64 {
            Some(n as usize)
        } else {
            None
        },
        None => None,
    }
}

/// Reads a decimal `i64`: an optional `+` or `-`, then digits.
pub fn parse_i64(s: &String) -> (r: Option<i64>)
    ensures
        r == match integer_value(s@) {
            Some(v) => if i64::MIN <= v <= i64::MAX {
                Some(v as i64)
            } else {
                None::<i64>
            },
            None => None::<i64>,
        },
{
    let v = chars_of(s.as_str());
    if v.len() > 0 && v[0] == '-' {
        assert(s@.drop_first() =~= v@.subrange(1, v@.len() as int));
        if v.len() == 1 {
            return None;
        }
        match digits_upto(&v, 1, 0x8000_0000_0000_0000) {
            Some(m) => {
                if m == 0x8000_0000_0000_0000 {
                    Some(i64::MIN)
                } else {
                    Some(-(m as i64))
                }
            },
            None => None,
        }
    } else {
        let from: usize = if v.len() > 0 && v[0] == '+' {
            1
        } else {
            0
        };
        assert(unsigned_part(s@, '+') =~= v@.subrange(from as int, v@.len() as int));
        if from == v.len() {
            return None;
        }
        match digits_upto(&v, from, 0x7fff_ffff_ffff_ffff) {
            Some(m) => Some(m as i64),
            None => None,
        }
    }
}

} // verus!
