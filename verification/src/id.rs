//! Entry identifiers: 35-bit values written as seven base-32 characters
//! (`grain_id::GrainId`).

use vstd::prelude::*;

verus! {

/// Identifiers hold values below 2^35.
pub const ID_LIMIT: u64 = 34359738368;

/// Value of one character of an identifier: digits and the letters of the
/// base-32 alphabet in either case, with `i`/`l` read as 1, `o` as 0 and `u`
/// as `v`; -1 for any other character.
pub open spec fn id_digit(c: char) -> int {
    if '0' <= c && c <= '9' {
        c as int - '0' as int
    } else {
        let l = if 'A' <= c && c <= 'Z' { (c as int - 'A' as int + 'a' as int) } else { c as int };
        if l == 'a' as int { 10 }
        else if l == 'b' as int { 11 }
        else if l == 'c' as int { 12 }
        else if l == 'd' as int { 13 }
        else if l == 'e' as int { 14 }
        else if l == 'f' as int { 15 }
        else if l == 'g' as int { 16 }
        else if l == 'h' as int { 17 }
        else if l == 'i' as int { 1 }
        else if l == 'j' as int { 18 }
        else if l == 'k' as int { 19 }
        else if l == 'l' as int { 1 }
        else if l == 'm' as int { 20 }
        else if l == 'n' as int { 21 }
        else if l == 'o' as int { 0 }
        else if l == 'p' as int { 22 }
        else if l == 'q' as int { 23 }
        else if l == 'r' as int { 24 }
        else if l == 's' as int { 25 }
        else if l == 't' as int { 26 }
        else if l == 'u' as int { 27 }
        else if l == 'v' as int { 27 }
        else if l == 'w' as int { 28 }
        else if l == 'x' as int { 29 }
        else if l == 'y' as int { 30 }
        else if l == 'z' as int { 31 }
        else { -1 }
    }
}

/// The character written for the base-32 digit `d`.
pub open spec fn id_char(d: int) -> char {
    if d < 10 {
        (d + '0' as int) as char
    } else {
        seq!['a', 'b', 'c', 'd', 'e', 'f', 'g', 'h', 'j', 'k', 'm', 'n', 'p', 'q', 'r', 's', 't', 'v', 'w', 'x', 'y', 'z'][d - 10]
    }
}

/// Value of a string of base-32 characters, most significant first.
pub open spec fn id_value(s: Seq<char>) -> int
    decreases s.len(),
{
    if s.len() == 0 {
        0
    } else {
        id_value(s.drop_last()) * 32 + id_digit(s.last())
    }
}

/// `s` is the text of an identifier: seven characters of the alphabet.
pub open spec fn is_id_text(s: Seq<char>) -> bool {
    s.len() == 7 && forall|i: int| 0 <= i < 7 ==> #[trigger] id_digit(s[i]) >= 0
}

pub open spec fn pow32(k: nat) -> int
    decreases k,
{
    if k == 0 { 1 } else { 32 * pow32((k - 1) as nat) }
}

/// The seven characters written for the identifier value `v`.
pub open spec fn id_text(v: int) -> Seq<char> {
    Seq::new(7, |i: int| id_char((v / pow32((6 - i) as nat)) % 32))
}

/// Each digit is read back from the character written for it.
pub proof fn lemma_id_digit_char(d: int)
    requires
        0 <= d < 32,
    ensures
        id_digit(id_char(d)) == d,
{
    let alphabet = seq!['a', 'b', 'c', 'd', 'e', 'f', 'g', 'h', 'j', 'k', 'm', 'n', 'p', 'q', 'r', 's', 't', 'v', 'w', 'x', 'y', 'z'];
    if d >= 10 {
        assert(id_char(d) == alphabet[d - 10]);
        assert(id_digit(alphabet[d - 10]) == d) by {
            assert(id_digit('a') == 10 && id_digit('b') == 11 && id_digit('c') == 12 && id_digit('d') == 13);
            assert(id_digit('e') == 14 && id_digit('f') == 15 && id_digit('g') == 16 && id_digit('h') == 17);
            assert(id_digit('j') == 18 && id_digit('k') == 19 && id_digit('m') == 20 && id_digit('n') == 21);
            assert(id_digit('p') == 22 && id_digit('q') == 23 && id_digit('r') == 24 && id_digit('s') == 25);
            assert(id_digit('t') == 26 && id_digit('v') == 27 && id_digit('w') == 28 && id_digit('x') == 29);
            assert(id_digit('y') == 30 && id_digit('z') == 31);
        }
    }
}

proof fn lemma_pow32_values()
    ensures
        pow32(0) == 1,
        pow32(1) == 32,
        pow32(2) == 1024,
        pow32(3) == 32768,
        pow32(4) == 1048576,
        pow32(5) == 33554432,
        pow32(6) == 1073741824,
        pow32(7) == 34359738368,
{
    reveal_with_fuel(pow32, 8);
}

proof fn lemma_id_text_prefix(v: int, k: int)
    requires
        0 <= v < ID_LIMIT,
        0 <= k <= 7,
    ensures
        id_value(id_text(v).take(k)) == v / pow32((7 - k) as nat),
    decreases k,
{
    lemma_pow32_values();
    if k == 0 {
        assert(id_text(v).take(0) =~= Seq::<char>::empty());
        assert(v / 34359738368 == 0);
    } else {
        lemma_id_text_prefix(v, k - 1);
        let t = id_text(v).take(k);
        assert(t.drop_last() =~= id_text(v).take(k - 1));
        let p = pow32((7 - k) as nat);
        let a = v / p;
        let d = a % 32;
        assert(0 <= d < 32);
        lemma_id_digit_char(d);
        assert(t.last() == id_char(d));
        assert(p > 0);
        assert(pow32((7 - (k - 1)) as nat) == 32 * p);
        vstd::arithmetic::div_mod::lemma_div_denominator(v, p, 32);
        assert(v / (p * 32) == v / (32 * p)) by {
            assert(p * 32 == 32 * p);
        }
        vstd::arithmetic::div_mod::lemma_fundamental_div_mod(a, 32);
        assert(id_value(t) == (a / 32) * 32 + d);
    }
}

/// An identifier's text is read back as the identifier: it is seven
/// characters of the alphabet whose value is the identifier.
pub proof fn lemma_id_text_round_trip(v: int)
    requires
        0 <= v < ID_LIMIT,
    ensures
        is_id_text(id_text(v)),
        id_value(id_text(v)) == v,
{
    lemma_pow32_values();
    lemma_id_text_prefix(v, 7);
    assert(id_text(v).take(7) =~= id_text(v));
    assert forall|i: int| 0 <= i < 7 implies #[trigger] id_digit(id_text(v)[i]) >= 0 by {
        let p = pow32((6 - i) as nat);
        assert(p > 0) by {
            reveal_with_fuel(pow32, 8);
        }
        let d = (v / p) % 32;
        lemma_id_digit_char(d);
    }
}

/// `GrainId::from_str`: claimed to accept exactly seven characters of the
/// base-32 alphabet and to yield their value.
#[verifier::external_body]
pub(crate) fn parse_id(s: &str) -> (res: Option<u64>)
    ensures
        res == (if is_id_text(s@) { Some(id_value(s@) as u64) } else { None }),
{
    s.parse::<grain_id::GrainId>().ok().map(|id| id.to_u64())
}

/// `GrainId`'s `Display`: claimed to write the value as seven base-32
/// characters, most significant first.
#[verifier::external_body]
pub(crate) fn id_to_text(id: u64) -> (res: String)
    requires
        id < ID_LIMIT,
    ensures
        res@ == id_text(id as int),
{
    grain_id::GrainId::from_u64_lossy(id).to_string()
}

/// `GrainId::now_unix`: an identifier from the current time in tenths of a
/// second.  Only its range is claimed; the value depends on the clock.
#[verifier::external_body]
pub(crate) fn id_now() -> (res: u64)
    ensures
        res < ID_LIMIT,
{
    grain_id::GrainId::now_unix().to_u64()
}

/// `CarettaId::increment`: the next identifier, wrapping to zero after the
/// largest (`(id + 1)` kept to 35 bits).
#[verifier::external_body]
pub(crate) fn id_increment(id: u64) -> (res: u64)
    requires
        id < ID_LIMIT,
    ensures
        res == (if id + 1 == ID_LIMIT { 0 } else { id + 1 }),
{
    caretta_id::CarettaId::from_u64_lossy(id).increment().to_u64()
}


/// `CarettaId`'s `Display` (entry filenames written by the entry
/// operations): claimed to write the value as seven base-32 characters,
/// most significant first, as [`id_text`] states.
#[verifier::external_body]
pub(crate) fn caretta_text(id: u64) -> (res: String)
    requires
        id < ID_LIMIT,
    ensures
        res@ == id_text(id as int),
{
    caretta_id::CarettaId::from_u64_lossy(id).to_string()
}

/// `CarettaId::from_str`: claimed, on text of ASCII characters, to accept
/// exactly seven characters of the base-32 alphabet and to yield their
/// value.  (On other text of seven bytes it stops the program, so such text
/// is not admitted.)
#[verifier::external_body]
pub(crate) fn caretta_parse(s: &str) -> (res: Option<u64>)
    requires
        forall|i: int| 0 <= i < s@.len() ==> (s@[i] as int) < 0x80,
    ensures
        res == (if is_id_text(s@) { Some(id_value(s@) as u64) } else { None }),
{
    s.parse::<caretta_id::CarettaId>().ok().map(|id| id.to_u64())
}

fn is_ascii_char(c: char) -> (res: bool)
    ensures
        res == ((c as int) < 0x80),
{
    (c as u32) < 0x80
}

/// Read the identifier written in frontmatter: seven characters of the
/// base-32 alphabet.
pub fn read_id_text(s: &str) -> (res: Option<u64>)
    ensures
        res == (if is_id_text(s@) { Some(id_value(s@) as u64) } else { None }),
{
    // `CarettaId::from_str` counts bytes before it reads characters, so only
    // ASCII text is handed to it; other text holds no identifier.
    let v = crate::text::chars_of(s);
    let mut i: usize = 0;
    while i < v.len()
        invariant
            i <= v@.len(),
            v@ == s@,
            forall|j: int| 0 <= j < i ==> (s@[j] as int) < 0x80,
        decreases v@.len() - i,
    {
        if !is_ascii_char(v[i]) {
            proof {
                assert(id_digit(s@[i as int]) == -1);
                if s@.len() == 7 {
                    assert(!(id_digit(s@[i as int]) >= 0));
                }
            }
            return None;
        }
        i += 1;
    }
    caretta_parse(s)
}

/// The text an identifier is written as: seven base-32 characters, most
/// significant first.
pub fn write_id_text(id: u64) -> (res: String)
    requires
        id < ID_LIMIT,
    ensures
        res@ == id_text(id as int),
{
    caretta_text(id)
}

/// An identifier for an entry created now, from the current time in tenths
/// of a second; only its range is known beforehand.
pub fn new_id() -> (res: u64)
    ensures
        res < ID_LIMIT,
{
    id_now()
}

} // verus!
