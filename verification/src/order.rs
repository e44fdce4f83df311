//! Three-way comparisons used to sort entries, written as `-1`, `0`, `1`,
//! with the laws a stable sort relies on: antisymmetry and transitivity.

use vstd::prelude::*;

use crate::datetime::DateTime;

verus! {

/// `-1`, `0` or `1` as `a` is below, equal to or above `b`.
pub open spec fn int_order(a: int, b: int) -> int {
    if a < b {
        -1
    } else if a == b {
        0
    } else {
        1
    }
}

/// Lexicographic order of texts by code point; a proper prefix comes first.
/// (For UTF-8 text this is the byte order `str` compares by.)
pub open spec fn text_order(a: Seq<char>, b: Seq<char>) -> int
    decreases a.len(),
{
    if a.len() == 0 {
        if b.len() == 0 {
            0
        } else {
            -1
        }
    } else if b.len() == 0 {
        1
    } else if (a[0] as int) < (b[0] as int) {
        -1
    } else if (a[0] as int) > (b[0] as int) {
        1
    } else {
        text_order(a.drop_first(), b.drop_first())
    }
}

/// Chronological order of date-times.
pub open spec fn datetime_order(a: DateTime, b: DateTime) -> int {
    if a.before(b) {
        -1
    } else if a == b {
        0
    } else {
        1
    }
}

/// Chronological order of optional date-times, absent values last.
pub open spec fn opt_datetime_order(a: Option<DateTime>, b: Option<DateTime>) -> int {
    match (a, b) {
        (Some(x), Some(y)) => datetime_order(x, y),
        (Some(_), None) => -1,
        (None, Some(_)) => 1,
        (None, None) => 0,
    }
}

pub proof fn lemma_text_order(a: Seq<char>, b: Seq<char>, c: Seq<char>)
    ensures
        -1 <= text_order(a, b) <= 1,
        text_order(a, b) == -text_order(b, a),
        text_order(a, b) == 0 <==> a == b,
        (text_order(a, b) <= 0 && text_order(b, c) <= 0) ==> text_order(a, c) <= 0,
    decreases a.len(),
{
    if a.len() > 0 && b.len() > 0 && c.len() > 0 {
        lemma_text_order(a.drop_first(), b.drop_first(), c.drop_first());
        if a[0] == b[0] && text_order(a.drop_first(), b.drop_first()) == 0 {
            assert(a =~= seq![a[0]] + a.drop_first());
            assert(b =~= seq![b[0]] + b.drop_first());
        }
    } else if a.len() > 0 && b.len() > 0 {
        lemma_text_order(a.drop_first(), b.drop_first(), c);
        if a[0] == b[0] && text_order(a.drop_first(), b.drop_first()) == 0 {
            assert(a =~= seq![a[0]] + a.drop_first());
            assert(b =~= seq![b[0]] + b.drop_first());
        }
    } else if a.len() == 0 && b.len() == 0 {
        assert(a =~= b);
    }
}

pub proof fn lemma_datetime_order(a: DateTime, b: DateTime, c: DateTime)
    ensures
        -1 <= datetime_order(a, b) <= 1,
        datetime_order(a, b) == -datetime_order(b, a),
        (datetime_order(a, b) <= 0 && datetime_order(b, c) <= 0) ==> datetime_order(a, c) <= 0,
{
    crate::datetime::lemma_datetime_order(a, b);
    crate::datetime::lemma_datetime_order(b, c);
    crate::datetime::lemma_datetime_order(a, c);
    if a.before(b) && b.before(c) {
        crate::datetime::lemma_datetime_before_trans(a, b, c);
    }
}

pub proof fn lemma_opt_datetime_order(a: Option<DateTime>, b: Option<DateTime>, c: Option<DateTime>)
    ensures
        -1 <= opt_datetime_order(a, b) <= 1,
        opt_datetime_order(a, b) == -opt_datetime_order(b, a),
        (opt_datetime_order(a, b) <= 0 && opt_datetime_order(b, c) <= 0) ==> opt_datetime_order(
            a,
            c,
        ) <= 0,
{
    match (a, b, c) {
        (Some(x), Some(y), Some(z)) => lemma_datetime_order(x, y, z),
        (Some(x), Some(y), None) => lemma_datetime_order(x, y, y),
        (None, Some(y), Some(z)) => lemma_datetime_order(y, z, z),
        (Some(x), None, Some(z)) => lemma_datetime_order(x, z, z),
        _ => {},
    }
}

/// Compare two texts by code point.
pub fn compare_text(a: &str, b: &str) -> (res: i8)
    ensures
        res as int == text_order(a@, b@),
{
    let va = crate::text::chars_of(a);
    let vb = crate::text::chars_of(b);
    let mut i: usize = 0;
    assert(a@.skip(0) =~= a@);
    assert(b@.skip(0) =~= b@);
    while i < va.len() && i < vb.len()
        invariant
            va@ == a@,
            vb@ == b@,
            i <= va@.len(),
            i <= vb@.len(),
            text_order(a@, b@) == text_order(a@.skip(i as int), b@.skip(i as int)),
        decreases va@.len() - i,
    {
        let x = va[i];
        let y = vb[i];
        assert(a@.skip(i as int)[0] == x);
        assert(b@.skip(i as int)[0] == y);
        if x < y {
            return -1;
        }
        if x > y {
            return 1;
        }
        assert(a@.skip(i as int).drop_first() =~= a@.skip(i + 1));
        assert(b@.skip(i as int).drop_first() =~= b@.skip(i + 1));
        i += 1;
    }
    if va.len() == i && vb.len() == i {
        0
    } else if va.len() == i {
        -1
    } else {
        1
    }
}

/// Compare two date-times chronologically.
pub fn compare_datetime(a: &DateTime, b: &DateTime) -> (res: i8)
    ensures
        res as int == datetime_order(*a, *b),
{
    if a.is_before(b) {
        -1
    } else if *a == *b {
        0
    } else {
        1
    }
}

/// Compare two optional date-times, absent values last.
pub fn compare_opt_datetime(a: Option<DateTime>, b: Option<DateTime>) -> (res: i8)
    ensures
        res == opt_datetime_order(a, b),
{
    match (a, b) {
        (Some(x), Some(y)) => compare_datetime(&x, &y),
        (Some(_), None) => -1,
        (None, Some(_)) => 1,
        (None, None) => 0,
    }
}

} // verus!
