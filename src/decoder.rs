//! Matching 16-bit instruction words against textual 4-nibble patterns.
//!
//! A pattern has four characters, one per nibble from the most significant.
//! A hexadecimal digit, in either case, is a literal: the nibble must have
//! its value. Any other character is a wildcard mask; the
//! nibbles under one mask letter, read left to right, form one field.

use crate::fault::Fault;
use vstd::prelude::*;

verus! {

/// The fields that a matching pattern extracts from an instruction word:
/// the nibbles under `X`, under `Y` and under `N`. A letter that the pattern
/// does not use gives 0.
#[derive(Clone, Copy, Debug, PartialEq, Eq, Structural)]
pub struct OpcodeMetadata {
    pub x: usize,
    pub y: usize,
    pub n: u16,
}

/// The weight of nibble `k` (0 is the most significant) in a 16-bit word.
pub open spec fn nibble_weight(k: int) -> int {
    if k == 0 {
        4096
    } else if k == 1 {
        256
    } else if k == 2 {
        16
    } else {
        1
    }
}

/// Nibble `k` of `inst`, counted from the most significant.
pub open spec fn nibble(inst: u16, k: int) -> int {
    (inst as int / nibble_weight(k)) % 16
}

pub open spec fn is_hex_digit(c: char) -> bool {
    ('0' <= c <= '9') || ('a' <= c <= 'f') || ('A' <= c <= 'F')
}

/// The value of a hex digit, upper or lower case.
pub open spec fn hex_value(c: char) -> int {
    if '0' <= c <= '9' {
        c as int - '0' as int
    } else if 'a' <= c <= 'f' {
        c as int - 'a' as int + 10
    } else {
        c as int - 'A' as int + 10
    }
}

/// Whether pattern character `p` admits nibble value `v`: a wildcard admits
/// any, a literal only its own value.
pub open spec fn position_matches(v: int, p: char) -> bool {
    is_hex_digit(p) ==> hex_value(p) == v
}

/// Whether `inst` matches the 4-character pattern `pat`.
pub open spec fn pattern_matches(inst: u16, pat: Seq<char>) -> bool {
    &&& pat.len() == 4
    &&& position_matches(nibble(inst, 0), pat[0])
    &&& position_matches(nibble(inst, 1), pat[1])
    &&& position_matches(nibble(inst, 2), pat[2])
    &&& position_matches(nibble(inst, 3), pat[3])
}

/// `acc` followed by nibble `k` of `inst` when position `k` holds `mask`.
pub open spec fn append_nibble(acc: int, inst: u16, pat: Seq<char>, mask: char, k: int) -> int {
    if pat[k] == mask {
        acc * 16 + nibble(inst, k)
    } else {
        acc
    }
}

/// The nibbles of `inst` under `mask`, concatenated left to right and read
/// as a hexadecimal number; 0 if `mask` does not occur.
pub open spec fn field(inst: u16, pat: Seq<char>, mask: char) -> int {
    let a0 = append_nibble(0, inst, pat, mask, 0);
    let a1 = append_nibble(a0, inst, pat, mask, 1);
    let a2 = append_nibble(a1, inst, pat, mask, 2);
    append_nibble(a2, inst, pat, mask, 3)
}

/// The fields that `pat` extracts from `inst`.
pub open spec fn metadata(inst: u16, pat: Seq<char>) -> OpcodeMetadata {
    OpcodeMetadata {
        x: field(inst, pat, 'X') as usize,
        y: field(inst, pat, 'Y') as usize,
        n: field(inst, pat, 'N') as u16,
    }
}

/// Whether `i` is the first pattern of `pats` that `inst` matches.
pub open spec fn is_first_match(inst: u16, pats: Seq<&str>, i: int) -> bool {
    &&& 0 <= i < pats.len()
    &&& pattern_matches(inst, pats[i]@)
    &&& forall|j: int| 0 <= j < i ==> !pattern_matches(inst, #[trigger] pats[j]@)
}

/// Whether every pattern of `pats` has four characters.
pub open spec fn well_formed_table(pats: Seq<&str>) -> bool {
    forall|j: int| 0 <= j < pats.len() ==> (#[trigger] pats[j]@).len() == 4
}

/// Nibble `k` of `inst`, computed.
fn get_nibble(inst: u16, k: usize) -> (r: u16)
    requires
        k < 4,
    ensures
        r == nibble(inst, k as int),
        r < 16,
{
    let w: u16 = if k == 0 {
        4096
    } else if k == 1 {
        256
    } else if k == 2 {
        16
    } else {
        1
    };
    (inst / w) % 16
}

/// Whether pattern character `p` admits nibble value `v`.
fn char_admits(v: u16, p: char) -> (r: bool)
    ensures
        r == position_matches(v as int, p),
{
    if '0' <= p && p <= '9' {
        (p as u32) - ('0' as u32) == v as u32
    } else if 'A' <= p && p <= 'F' {
        (p as u32) - ('A' as u32) + 10 == v as u32
    } else if 'a' <= p && p <= 'f' {
        (p as u32) - ('a' as u32) + 10 == v as u32
    } else {
        true
    }
}

/// Matches `inst` against `inst_pat`; on a match, returns the fields that
/// the pattern's mask letters `X`, `Y` and `N` extract.
pub fn decoder_match(inst: u16, inst_pat: &str) -> (r: Option<OpcodeMetadata>)
    requires
        inst_pat@.len() == 4,
    ensures
        r == (if pattern_matches(inst, inst_pat@) {
            Some(metadata(inst, inst_pat@))
        } else {
            None
        }),
{
    let ghost pat = inst_pat@;
    let mut k: usize = 0;
    while k < 4
        invariant
            k <= 4,
            pat == inst_pat@,
            pat.len() == 4,
            forall|j: int| 0 <= j < k ==> position_matches(nibble(inst, j), #[trigger] pat[j]),
        decreases 4 - k,
    {
        let p = inst_pat.get_char(k);
        if !char_admits(get_nibble(inst, k), p) {
            return None;
        }
        k = k + 1;
    }
    assert(pattern_matches(inst, pat)) by {
        assert(position_matches(nibble(inst, 0), pat[0]));
        assert(position_matches(nibble(inst, 1), pat[1]));
        assert(position_matches(nibble(inst, 2), pat[2]));
        assert(position_matches(nibble(inst, 3), pat[3]));
    }
    let mut x: u32 = 0;
    let mut y: u32 = 0;
    let mut n: u32 = 0;
    let mut k: usize = 0;
    while k < 4
        invariant
            k <= 4,
            pat == inst_pat@,
            pat.len() == 4,
            x == extracted(inst, pat, 'X', k as int),
            y == extracted(inst, pat, 'Y', k as int),
            n == extracted(inst, pat, 'N', k as int),
        decreases 4 - k,
    {
        proof {
            lemma_extracted_bound(inst, pat, 'X', k as int);
            lemma_extracted_bound(inst, pat, 'Y', k as int);
            lemma_extracted_bound(inst, pat, 'N', k as int);
        }
        let p = inst_pat.get_char(k);
        let v = get_nibble(inst, k) as u32;
        if p == 'X' {
            x = x * 16 + v;
        } else if p == 'Y' {
            y = y * 16 + v;
        } else if p == 'N' {
            n = n * 16 + v;
        }
        k = k + 1;
    }
    proof {
        lemma_extracted_bound(inst, pat, 'X', 4);
        lemma_extracted_bound(inst, pat, 'Y', 4);
        lemma_extracted_bound(inst, pat, 'N', 4);
    }
    Some(OpcodeMetadata { x: x as usize, y: y as usize, n: n as u16 })
}

/// The nibbles under `mask` among the first `k` positions, as a number.
spec fn extracted(inst: u16, pat: Seq<char>, mask: char, k: int) -> int
    decreases k,
{
    if k <= 0 {
        0
    } else {
        append_nibble(extracted(inst, pat, mask, k - 1), inst, pat, mask, k - 1)
    }
}

proof fn lemma_extracted_bound(inst: u16, pat: Seq<char>, mask: char, k: int)
    requires
        0 <= k <= 4,
        pat.len() == 4,
    ensures
        0 <= extracted(inst, pat, mask, k) < nibble_weight(4 - k) * if k == 0 { 1int } else { 16 },
        k == 4 ==> extracted(inst, pat, mask, k) == field(inst, pat, mask),
    decreases k,
{
    if k > 0 {
        lemma_extracted_bound(inst, pat, mask, k - 1);
    }
    reveal_with_fuel(extracted, 5);
}

/// Decodes `inst` against an ordered pattern table: the first pattern that
/// matches wins, and its index and extracted fields are returned. When no
/// pattern matches, the word is an unsupported instruction.
pub fn decode(inst: u16, table: &[&str]) -> (r: Result<(usize, OpcodeMetadata), Fault>)
    requires
        well_formed_table(table@),
    ensures
        match r {
            Ok((i, m)) => is_first_match(inst, table@, i as int) && m == metadata(
                inst,
                table@[i as int]@,
            ),
            Err(f) => f == Fault::UnsupportedInstruction(inst) && forall|j: int|
                0 <= j < table@.len() ==> !pattern_matches(inst, #[trigger] table@[j]@),
        },
{
    let mut i: usize = 0;
    while i < table.len()
        invariant
            i <= table@.len(),
            well_formed_table(table@),
            forall|j: int| 0 <= j < i ==> !pattern_matches(inst, #[trigger] table@[j]@),
        decreases table@.len() - i,
    {
        let pat: &str = table[i];
        assert(pat@.len() == 4);
        match decoder_match(inst, pat) {
            Some(m) => {
                return Ok((i, m));
            },
            None => {},
        }
        i = i + 1;
    }
    Err(Fault::UnsupportedInstruction(inst))
}

/// The word whose nibbles, from the most significant, are `v[0]` to `v[3]`.
pub open spec fn compose(v: Seq<int>) -> u16 {
    (v[0] * 4096 + v[1] * 256 + v[2] * 16 + v[3]) as u16
}

/// `acc` followed by `v[k]` when position `k` of `pat` holds `mask`.
pub open spec fn append_digit(acc: int, v: Seq<int>, pat: Seq<char>, mask: char, k: int) -> int {
    if pat[k] == mask {
        acc * 16 + v[k]
    } else {
        acc
    }
}

/// The nibbles `v[k]` at the positions where `pat` holds `mask`, read left
/// to right as a hexadecimal number.
pub open spec fn digits_under(v: Seq<int>, pat: Seq<char>, mask: char) -> int {
    let a0 = append_digit(0, v, pat, mask, 0);
    let a1 = append_digit(a0, v, pat, mask, 1);
    let a2 = append_digit(a1, v, pat, mask, 2);
    append_digit(a2, v, pat, mask, 3)
}

/// A word is its four nibbles, weighted.
pub proof fn lemma_nibbles(inst: u16)
    ensures
        inst == nibble(inst, 0) * 4096 + nibble(inst, 1) * 256 + nibble(inst, 2) * 16 + nibble(inst, 3),
        0 <= nibble(inst, 0) < 16,
        0 <= nibble(inst, 1) < 16,
        0 <= nibble(inst, 2) < 16,
        0 <= nibble(inst, 3) < 16,
{
    let w = inst as int;
    assert(w == (w / 4096) % 16 * 4096 + (w / 256) % 16 * 256 + (w / 16) % 16 * 16 + w % 16) by (nonlinear_arith)
        requires
            0 <= w < 65536,
    ;
}

/// Composing nibbles and taking them apart again gives them back.
pub proof fn lemma_compose_nibbles(v: Seq<int>)
    requires
        v.len() == 4,
        forall|k: int| 0 <= k < 4 ==> 0 <= #[trigger] v[k] < 16,
    ensures
        forall|k: int| 0 <= k < 4 ==> nibble(compose(v), k) == #[trigger] v[k],
{
    let (a, b, c, d) = (v[0], v[1], v[2], v[3]);
    assert(0 <= a < 16 && 0 <= b < 16 && 0 <= c < 16 && 0 <= d < 16);
    let w = compose(v);
    assert(w == a * 4096 + b * 256 + c * 16 + d);
    lemma_nibbles(w);
    let (p, q, r, t) = (nibble(w, 0), nibble(w, 1), nibble(w, 2), nibble(w, 3));
    assert(p == a && q == b && r == c && t == d) by (nonlinear_arith)
        requires
            a * 4096 + b * 256 + c * 16 + d == p * 4096 + q * 256 + r * 16 + t,
            0 <= a < 16,
            0 <= b < 16,
            0 <= c < 16,
            0 <= d < 16,
            0 <= p < 16,
            0 <= q < 16,
            0 <= r < 16,
            0 <= t < 16,
    ;
}

/// Decoding is deterministic: a word has at most one first matching pattern
/// in a table, so decoding it twice selects the same pattern and extracts
/// the same fields.
pub proof fn lemma_decode_deterministic(inst: u16, pats: Seq<&str>, i: int, j: int)
    requires
        is_first_match(inst, pats, i),
        is_first_match(inst, pats, j),
    ensures
        i == j,
        metadata(inst, pats[i]@) == metadata(inst, pats[j]@),
{
    if i < j {
        assert(!pattern_matches(inst, pats[i]@));
    } else if j < i {
        assert(!pattern_matches(inst, pats[j]@));
    }
}

/// Encoding then decoding: the word built from pattern `pat`'s literal
/// digits and any nibbles `v` under its wildcards matches `pat`, and every
/// mask letter's field is exactly the nibbles of `v` under it, in order.
pub proof fn lemma_round_trip(pat: Seq<char>, v: Seq<int>, mask: char)
    requires
        pat.len() == 4,
        v.len() == 4,
        forall|k: int| 0 <= k < 4 ==> 0 <= #[trigger] v[k] < 16,
        forall|k: int|
            0 <= k < 4 && is_hex_digit(#[trigger] pat[k]) ==> v[k] == hex_value(pat[k]),
    ensures
        pattern_matches(compose(v), pat),
        field(compose(v), pat, mask) == digits_under(v, pat, mask),
{
    lemma_compose_nibbles(v);
    let w = compose(v);
    assert(nibble(w, 0) == v[0] && nibble(w, 1) == v[1] && nibble(w, 2) == v[2] && nibble(w, 3) == v[3]);
    assert(is_hex_digit(pat[0]) ==> v[0] == hex_value(pat[0]));
    assert(is_hex_digit(pat[1]) ==> v[1] == hex_value(pat[1]));
    assert(is_hex_digit(pat[2]) ==> v[2] == hex_value(pat[2]));
    assert(is_hex_digit(pat[3]) ==> v[3] == hex_value(pat[3]));
}

} // verus!
