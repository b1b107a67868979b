//! Week keys written `<year>-<week>`, as the configuration file names the weeks
//! that it overrides.

use vstd::prelude::*;
use vstd::string::StrSliceExecFns;
use crate::schedule::WeekId;

verus! {

/// A decimal digit.
pub open spec fn is_digit(c: char) -> bool {
    '0' <= c && c <= '9'
}

/// Every character is a decimal digit.
pub open spec fn all_digits(s: Seq<char>) -> bool {
    forall|i: int| 0 <= i < s.len() ==> is_digit(#[trigger] s[i])
}

/// The number that a run of decimal digits writes.
pub open spec fn digits_value(s: Seq<char>) -> int
    decreases s.len(),
{
    if s.len() == 0 {
        0
    } else {
        digits_value(s.drop_last()) * 10 + ((s.last() as u32) as int - 48)
    }
}

/// Digits written as a number is written: no leading zero but in `0` itself.
pub open spec fn no_leading_zero(s: Seq<char>) -> bool {
    s.len() == 1 || s[0] != '0'
}

/// `s` is a key whose dash stands at position `k`: digits, a dash, digits, each
/// number without a leading zero.
pub open spec fn key_shape(s: Seq<char>, k: int) -> bool {
    &&& 0 < k
    &&& k + 1 < s.len()
    &&& s[k] == '-'
    &&& all_digits(s.subrange(0, k))
    &&& all_digits(s.subrange(k + 1, s.len() as int))
    &&& no_leading_zero(s.subrange(0, k))
    &&& no_leading_zero(s.subrange(k + 1, s.len() as int))
}

/// The year that a key with its dash at `k` names.
pub open spec fn key_year(s: Seq<char>, k: int) -> int {
    digits_value(s.subrange(0, k))
}

/// The week number that a key with its dash at `k` names.
pub open spec fn key_week(s: Seq<char>, k: int) -> int {
    digits_value(s.subrange(k + 1, s.len() as int))
}

proof fn lemma_value_nonneg_monotone(s: Seq<char>, i: int, j: int)
    requires
        0 <= i <= j <= s.len(),
        all_digits(s),
    ensures
        0 <= digits_value(s.subrange(0, i)) <= digits_value(s.subrange(0, j)),
    decreases j,
{
    if j > 0 {
        let i2 = if i < j { i } else { j - 1 };
        lemma_value_nonneg_monotone(s, i2, j - 1);
        assert(s.subrange(0, j).drop_last() =~= s.subrange(0, j - 1));
        assert(is_digit(s[j - 1]));
    }
}

proof fn lemma_leading_digit_positive(s: Seq<char>)
    requires
        s.len() >= 1,
        all_digits(s),
        s[0] != '0',
    ensures
        digits_value(s) >= 1,
{
    lemma_value_nonneg_monotone(s, 1, s.len() as int);
    assert(s.subrange(0, s.len() as int) =~= s);
    assert(s.subrange(0, 1).drop_last() =~= Seq::<char>::empty());
    assert(is_digit(s[0]));
}

proof fn lemma_digits_injective(a: Seq<char>, b: Seq<char>)
    requires
        a.len() >= 1,
        b.len() >= 1,
        all_digits(a),
        all_digits(b),
        no_leading_zero(a),
        no_leading_zero(b),
        digits_value(a) == digits_value(b),
    ensures
        a == b,
    decreases a.len() + b.len(),
{
    let pa = a.drop_last();
    let pb = b.drop_last();
    let da = (a.last() as u32) as int - 48;
    let db = (b.last() as u32) as int - 48;
    assert(is_digit(a[a.len() - 1]) && is_digit(b[b.len() - 1]));
    assert(all_digits(pa) && all_digits(pb)) by {
        assert forall|i: int| 0 <= i < pa.len() implies is_digit(#[trigger] pa[i]) by {
            assert(pa[i] == a[i]);
        }
        assert forall|i: int| 0 <= i < pb.len() implies is_digit(#[trigger] pb[i]) by {
            assert(pb[i] == b[i]);
        }
    }
    lemma_value_nonneg_monotone(pa, 0, pa.len() as int);
    lemma_value_nonneg_monotone(pb, 0, pb.len() as int);
    assert(pa.subrange(0, pa.len() as int) =~= pa);
    assert(pb.subrange(0, pb.len() as int) =~= pb);
    let va = digits_value(pa);
    let vb = digits_value(pb);
    assert(va * 10 + da == vb * 10 + db);
    assert(va == vb && da == db) by (nonlinear_arith)
        requires
            va * 10 + da == vb * 10 + db,
            0 <= da <= 9,
            0 <= db <= 9,
            va >= 0,
            vb >= 0,
    ;
    if a.len() >= 2 {
        assert(pa[0] == a[0]);
        lemma_leading_digit_positive(pa);
    }
    if b.len() >= 2 {
        assert(pb[0] == b[0]);
        lemma_leading_digit_positive(pb);
    }
    if a.len() >= 2 && b.len() >= 2 {
        assert(pa[0] == a[0] && pb[0] == b[0]);
        lemma_digits_injective(pa, pb);
        assert(a =~= pa.push(a.last()));
        assert(b =~= pb.push(b.last()));
    } else {
        assert(pa.len() == 0 && pb.len() == 0);
        assert(a =~= b);
    }
}

/// A week has one key: two keys that name the same year and week are the same
/// text.
pub proof fn lemma_week_key_unique(s: Seq<char>, ks: int, t: Seq<char>, kt: int)
    requires
        key_shape(s, ks),
        key_shape(t, kt),
        key_year(s, ks) == key_year(t, kt),
        key_week(s, ks) == key_week(t, kt),
    ensures
        s == t,
{
    lemma_digits_injective(s.subrange(0, ks), t.subrange(0, kt));
    lemma_digits_injective(s.subrange(ks + 1, s.len() as int), t.subrange(kt + 1, t.len() as int));
    assert forall|i: int| 0 <= i < s.len() implies s[i] == t[i] by {
        if i < ks {
            assert(s.subrange(0, ks)[i] == t.subrange(0, kt)[i]);
        } else if i > ks {
            assert(s.subrange(ks + 1, s.len() as int)[i - ks - 1] == t.subrange(
                kt + 1,
                t.len() as int,
            )[i - ks - 1]);
        }
    }
    assert(s =~= t);
}

/// The number that the digits `s[from..to]` write, if it is at most `limit`.
fn parse_digits(s: &str, from: usize, to: usize, limit: u64) -> (r: Option<u64>)
    requires
        from <= to <= s@.len(),
        limit <= u32::MAX,
        all_digits(s@.subrange(from as int, to as int)),
    ensures
        match r {
            Some(v) => v == digits_value(s@.subrange(from as int, to as int)) && v <= limit,
            None => digits_value(s@.subrange(from as int, to as int)) > limit,
        },
{
    let ghost t = s@.subrange(from as int, to as int);
    let mut acc: u64 = 0;
    let mut i: usize = from;
    while i < to
        invariant
            from <= i <= to <= s@.len(),
            limit <= u32::MAX,
            t == s@.subrange(from as int, to as int),
            all_digits(t),
            acc == digits_value(t.subrange(0, i - from)),
            acc <= limit,
        decreases to - i,
    {
        let c = s.get_char(i);
        proof {
            assert(c == t[i - from]);
            assert(t.subrange(0, i - from + 1).drop_last() =~= t.subrange(0, i - from));
        }
        let next: u64 = acc * 10 + ((c as u32) - 48) as u64;
        if next > limit {
            proof {
                lemma_value_nonneg_monotone(t, (i - from + 1) as int, t.len() as int);
                assert(t.subrange(0, t.len() as int) =~= t);
            }
            return None;
        }
        acc = next;
        i = i + 1;
    }
    proof {
        assert(t.subrange(0, t.len() as int) =~= t);
    }
    Some(acc)
}

/// Reads a week key `<year>-<week>`: two numbers in decimal digits, without
/// leading zeros, around a dash; the year at most `i32::MAX` and the week at most
/// `u32::MAX`.
pub fn parse_week_key(s: &str) -> (r: Option<WeekId>)
    ensures
        match r {
            Some(w) => exists|k: int|
                key_shape(s@, k) && w.year as int == key_year(s@, k) && w.week as int == key_week(
                    s@,
                    k,
                ),
            None => forall|k: int|
                key_shape(s@, k) ==> key_year(s@, k) > i32::MAX || key_week(s@, k) > u32::MAX,
        },
{
    let len: usize = s.unicode_len();
    let mut k: usize = 0;
    while k < len && is_digit_char(s.get_char(k))
        invariant
            k <= len == s@.len(),
            forall|i: int| 0 <= i < k ==> is_digit(#[trigger] s@[i]),
        decreases len - k,
    {
        k = k + 1;
    }
    if k == 0 || k >= len || s.get_char(k) != '-' || k + 1 >= len {
        proof {
            assert forall|k2: int| key_shape(s@, k2) implies false by {
                if k2 < k {
                    assert(s@.subrange(0, k as int)[k2] == s@[k2]);
                } else if k2 > k {
                    assert(s@.subrange(0, k2)[k as int] == s@[k as int]);
                }
            }
        }
        return None;
    }
    let mut j: usize = k + 1;
    while j < len
        invariant
            k + 1 <= j <= len == s@.len(),
            0 < k < len,
            s@[k as int] == '-',
            forall|i: int| 0 <= i < k ==> is_digit(#[trigger] s@[i]),
            forall|i: int| k + 1 <= i < j ==> is_digit(#[trigger] s@[i]),
        decreases len - j,
    {
        if !is_digit_char(s.get_char(j)) {
            proof {
                assert forall|k2: int| key_shape(s@, k2) implies false by {
                    if k2 < k {
                        assert(s@.subrange(0, k as int)[k2] == s@[k2]);
                    } else if k2 > k {
                        assert(s@.subrange(0, k2)[k as int] == s@[k as int]);
                    } else {
                        assert(s@.subrange(k + 1, s@.len() as int)[j - k - 1] == s@[j as int]);
                    }
                }
            }
            return None;
        }
        j = j + 1;
    }
    proof {
        assert forall|k2: int| key_shape(s@, k2) implies k2 == k by {
            if k2 < k {
                assert(s@.subrange(0, k as int)[k2] == s@[k2]);
            } else if k2 > k {
                assert(s@.subrange(0, k2)[k as int] == s@[k as int]);
            }
        }
        assert(s@.subrange(0, k as int)[0] == s@[0]);
        assert(s@.subrange(k + 1, s@.len() as int)[0] == s@[k + 1]);
    }
    if (k > 1 && s.get_char(0) == '0') || (k + 2 < len && s.get_char(k + 1) == '0') {
        return None;
    }
    proof {
        assert(key_shape(s@, k as int));
    }
    let year = parse_digits(s, 0, k, 2147483647);
    let week = parse_digits(s, k + 1, len, 4294967295);
    match (year, week) {
        (Some(y), Some(w)) => Some(WeekId { year: y as i32, week: w as u32 }),
        _ => None,
    }
}

fn is_digit_char(c: char) -> (r: bool)
    ensures
        r == is_digit(c),
{
    '0' <= c && c <= '9'
}

} // verus!
