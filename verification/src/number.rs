//! Decimal integers in text: reading (as `str::parse` does for `i32`/`u32`)
//! and writing (as `Display` does).

use vstd::prelude::*;

verus! {

pub open spec fn is_digit(c: char) -> bool {
    '0' <= c && c <= '9'
}

pub open spec fn digit_value(c: char) -> int {
    c as int - '0' as int
}

pub open spec fn all_digits(s: Seq<char>) -> bool {
    forall|i: int| 0 <= i < s.len() ==> is_digit(#[trigger] s[i])
}

/// Value of a run of decimal digits, most significant first.
pub open spec fn digits_value(s: Seq<char>) -> int
    decreases s.len(),
{
    if s.len() == 0 {
        0
    } else {
        digits_value(s.drop_last()) * 10 + digit_value(s.last())
    }
}

/// Reading of Rust's signed integer `FromStr`: an optional `+` or `-`
/// followed by at least one decimal digit and nothing else.
pub open spec fn signed_decimal(s: Seq<char>) -> Option<int> {
    if s.len() > 0 && (s[0] == '+' || s[0] == '-') {
        let r = s.drop_first();
        if r.len() > 0 && all_digits(r) {
            Some(if s[0] == '-' { -digits_value(r) } else { digits_value(r) })
        } else {
            None
        }
    } else if s.len() > 0 && all_digits(s) {
        Some(digits_value(s))
    } else {
        None
    }
}

/// Reading of Rust's unsigned integer `FromStr`: an optional `+` followed by
/// at least one decimal digit and nothing else.
pub open spec fn unsigned_decimal(s: Seq<char>) -> Option<int> {
    if s.len() > 0 && s[0] == '+' {
        let r = s.drop_first();
        if r.len() > 0 && all_digits(r) {
            Some(digits_value(r))
        } else {
            None
        }
    } else if s.len() > 0 && all_digits(s) {
        Some(digits_value(s))
    } else {
        None
    }
}

/// What `s.parse::<i32>()` gives.
pub open spec fn i32_from_text(s: Seq<char>) -> Option<i32> {
    match signed_decimal(s) {
        Some(v) => if i32::MIN <= v <= i32::MAX {
            Some(v as i32)
        } else {
            None
        },
        None => None,
    }
}

/// What `s.parse::<u32>()` gives.
pub open spec fn u32_from_text(s: Seq<char>) -> Option<u32> {
    match unsigned_decimal(s) {
        Some(v) => if v <= u32::MAX {
            Some(v as u32)
        } else {
            None
        },
        None => None,
    }
}

proof fn lemma_digits_value_nonneg(s: Seq<char>)
    requires
        all_digits(s),
    ensures
        digits_value(s) >= 0,
    decreases s.len(),
{
    if s.len() > 0 {
        assert(all_digits(s.drop_last()));
        lemma_digits_value_nonneg(s.drop_last());
    }
}

/// The digits `v[start..]` and their value, capped: `None` unless all are
/// digits, there is at least one, and the value is at most ten billion.
fn digits_from(v: &[char], start: usize) -> (res: Option<u64>)
    requires
        start <= v@.len(),
    ensures
        ({
            let r = v@.subrange(start as int, v@.len() as int);
            match res {
                Some(n) => r.len() > 0 && all_digits(r) && n == digits_value(r) && n
                    <= 10_000_000_000,
                None => r.len() == 0 || !all_digits(r) || digits_value(r) > 10_000_000_000,
            }
        }),
{
    if start == v.len() {
        return None;
    }
    let mut i = start;
    let mut val: u64 = 0;
    let mut big = false;
    while i < v.len()
        invariant
            start <= i <= v@.len(),
            all_digits(v@.subrange(start as int, i as int)),
            !big ==> val == digits_value(v@.subrange(start as int, i as int)),
            !big ==> val <= 10_000_000_000,
            big ==> digits_value(v@.subrange(start as int, i as int)) > 10_000_000_000,
        decreases v@.len() - i,
    {
        let c = v[i];
        if !('0' <= c && c <= '9') {
            assert(!all_digits(v@.subrange(start as int, v@.len() as int))) by {
                assert(v@.subrange(start as int, v@.len() as int)[i - start] == c);
            }
            return None;
        }
        let ghost prev = v@.subrange(start as int, i as int);
        let ghost next = v@.subrange(start as int, i + 1);
        assert(next.drop_last() =~= prev);
        assert(next.last() == c);
        proof {
            lemma_digits_value_nonneg(prev);
        }
        if !big {
            if val > 1_000_000_000 {
                big = true;
            } else {
                val = val * 10 + (c as u64 - '0' as u64);
                if val > 10_000_000_000 {
                    big = true;
                }
            }
        }
        i += 1;
        assert(all_digits(v@.subrange(start as int, i as int)));
    }
    if big {
        None
    } else {
        Some(val)
    }
}

/// `s.parse::<i32>()`, read from characters.
pub fn parse_i32(v: &[char]) -> (res: Option<i32>)
    ensures
        res == i32_from_text(v@),
{
    if v.len() == 0 {
        return None;
    }
    let signed = v[0] == '+' || v[0] == '-';
    let start: usize = if signed { 1 } else { 0 };
    let ghost r = v@.subrange(start as int, v@.len() as int);
    proof {
        if signed {
            assert(r =~= v@.drop_first());
        } else {
            assert(r =~= v@);
        }
    }
    match digits_from(v, start) {
        None => {
            None
        },
        Some(n) => {
            if v[0] == '-' {
                if n <= 2147483648 {
                    Some((0 - (n as i64)) as i32)
                } else {
                    None
                }
            } else {
                if n <= 2147483647 {
                    Some(n as i32)
                } else {
                    None
                }
            }
        },
    }
}

/// `s.parse::<u32>()`, read from characters.
pub fn parse_u32(v: &[char]) -> (res: Option<u32>)
    ensures
        res == u32_from_text(v@),
{
    if v.len() == 0 {
        return None;
    }
    let signed = v[0] == '+';
    let start: usize = if signed { 1 } else { 0 };
    let ghost r = v@.subrange(start as int, v@.len() as int);
    proof {
        if signed {
            assert(r =~= v@.drop_first());
        } else {
            assert(r =~= v@);
        }
    }
    match digits_from(v, start) {
        None => None,
        Some(n) => {
            if n <= 4294967295 {
                Some(n as u32)
            } else {
                None
            }
        },
    }
}

pub open spec fn digit_char(d: int) -> char {
    (d + '0' as int) as char
}

/// Decimal digits of `n` as `Display` writes them (no sign, no padding).
pub open spec fn decimal_digits(n: nat) -> Seq<char>
    decreases n,
{
    if n < 10 {
        seq![digit_char(n as int)]
    } else {
        decimal_digits(n / 10).push(digit_char((n % 10) as int))
    }
}

/// Decimal text of `n` (`n.to_string()`).
pub fn decimal_text(n: u64) -> (res: Vec<char>)
    ensures
        res@ == decimal_digits(n as nat),
{
    let mut rev: Vec<char> = Vec::new();
    let mut m = n;
    let ghost mut parts: Seq<char> = Seq::empty();
    let mut digits: Vec<char> = Vec::new();
    // Peel digits from the least significant end, then reverse.
    while m >= 10
        invariant
            decimal_digits(n as nat) == decimal_digits(m as nat) + parts,
            rev@.len() == parts.len(),
            forall|j: int| 0 <= j < parts.len() ==> rev@[j] == parts[parts.len() - 1 - j],
        decreases m,
    {
        let d = m % 10;
        let c = ((d as u8) + ('0' as u8)) as char;
        assert(c == digit_char(d as int));
        proof {
            assert(decimal_digits(m as nat) == decimal_digits((m / 10) as nat).push(c));
            assert(decimal_digits(m as nat) + parts =~= decimal_digits((m / 10) as nat) + (seq![
                c,
            ] + parts));
            parts = seq![c] + parts;
        }
        rev.push(c);
        m = m / 10;
    }
    let c = ((m as u8) + ('0' as u8)) as char;
    assert(c == digit_char(m as int));
    assert(decimal_digits(m as nat) == seq![c]);
    rev.push(c);
    proof {
        parts = seq![c] + parts;
    }
    assert(parts =~= decimal_digits(n as nat));
    let mut k = rev.len();
    while k > 0
        invariant
            k <= rev@.len(),
            rev@.len() == parts.len(),
            forall|j: int| 0 <= j < parts.len() ==> rev@[j] == parts[parts.len() - 1 - j],
            digits@ =~= parts.subrange(0, (rev@.len() - k) as int),
        decreases k,
    {
        k -= 1;
        digits.push(rev[k]);
    }
    assert(digits@ =~= parts);
    digits
}


/// Decimal text of a signed number, with a leading `-` when negative.
pub open spec fn decimal_digits_signed(n: int) -> Seq<char> {
    if n < 0 {
        seq!['-'] + decimal_digits((-n) as nat)
    } else {
        decimal_digits(n as nat)
    }
}

/// Decimal text of `n` (`n.to_string()`).
pub fn signed_decimal_text(n: i32) -> (res: String)
    ensures
        res@ == decimal_digits_signed(n as int),
{
    if n < 0 {
        let m = (-(n as i64)) as u64;
        let digits = decimal_text(m);
        let mut all: Vec<char> = Vec::new();
        all.push('-');
        let mut i: usize = 0;
        while i < digits.len()
            invariant
                i <= digits@.len(),
                all@ == seq!['-'] + digits@.take(i as int),
            decreases digits@.len() - i,
        {
            all.push(digits[i]);
            assert(all@ =~= seq!['-'] + digits@.take(i + 1));
            i += 1;
        }
        assert(digits@.take(i as int) =~= digits@);
        crate::text::string_from_chars(&all)
    } else {
        let digits = decimal_text(n as u64);
        crate::text::string_from_chars(&digits)
    }
}

} // verus!
